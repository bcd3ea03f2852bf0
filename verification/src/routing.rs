//! Delivering signals: each widget reacts as its flavor says, a layout passes
//! pointer signals on to the children it hovers over, and the listeners of a
//! widget hear of a signal once the widget and everything below it have reacted.

use crate::caribou::Caribou;
use crate::handle::{copy_refs, surviving, Widget, WidgetRef, WidgetRefVec, WidgetRefer};
use crate::math::{IntPair, Region};
use crate::model::{
    approach, deliver, deliver_all, dispatch, emits, hover_after, hover_plan, react, settle,
    to_each, widget_of, Delivery, Kind, Signal, World,
};
use crate::event::{SingleArg, Subscriber, ZeroArg};
use crate::widget::{Listeners, Watchers, WidgetEvents, WidgetInner};
use crate::widgets::{ButtonState, WidgetData};
use vstd::prelude::*;

verus! {

/// The census and the world agree on who exists.
pub proof fn live_is_surviving<P: Watchers, L: Listeners<P>>(ui: &Caribou<P, L>, refs: Seq<WidgetRef>)
    requires
        ui.wf(),
    ensures
        ui@.live(refs) == surviving(refs, ui.census()),
    decreases refs.len(),
{
    reveal(Seq::filter);
    if refs.len() > 0 {
        live_is_surviving(ui, refs.drop_last());
        let r = refs.last();
        if r.slot is Some {
            let id = r.slot->0 as int;
            if ui.census().lives(id) {
                ui.census().lives_in_range(id);
            }
        }
        assert(ui@.reaches(r) == ui.census().reaches(r));
    }
}

/// Whether every one of the payload-free `listeners` was called with `widget`.
pub open spec fn told<W, F: ZeroArg<W, ()>>(listeners: Seq<Subscriber<F>>, widget: &W) -> bool {
    forall|i: int| 0 <= i < listeners.len() ==> (#[trigger] listeners[i]).func.responds(widget, ())
}

/// Whether every one of `listeners` was called with `widget` and `value`.
pub open spec fn told_with<W, A, F: SingleArg<W, A, ()>>(
    listeners: Seq<Subscriber<F>>,
    widget: &W,
    value: &A,
) -> bool {
    forall|i: int|
        0 <= i < listeners.len() ==> (#[trigger] listeners[i]).func.responds(widget, value, ())
}

/// Whether the listeners of `signal` among `events` were called, each once,
/// with `inner` as the widget they are shown.
pub open spec fn heard<P: Watchers, L: Listeners<P>>(
    events: WidgetEvents<P, L>,
    signal: Signal,
    inner: &WidgetInner<P>,
) -> bool {
    match signal {
        Signal::MouseMove(p) => told_with(events.on_mouse_move@, inner, &p),
        Signal::MouseEnter => told(events.on_mouse_enter@, inner),
        Signal::MouseLeave => told(events.on_mouse_leave@, inner),
        Signal::PrimaryDown => told(events.on_primary_down@, inner),
        Signal::PrimaryUp => told(events.on_primary_up@, inner),
        Signal::SecondaryDown => told(events.on_secondary_down@, inner),
        Signal::SecondaryUp => told(events.on_secondary_up@, inner),
        Signal::TertiaryDown => told(events.on_tertiary_down@, inner),
        Signal::TertiaryUp => told(events.on_tertiary_up@, inner),
        Signal::KeyDown(event) => told_with(events.on_key_down@, inner, &event),
        Signal::KeyUp(event) => told_with(events.on_key_up@, inner, &event),
        Signal::Update => told(events.on_update@, inner),
        Signal::Action(payload) => told_with(events.action@, inner, &payload),
    }
}

/// `signal` for each of `refs`, in order.
fn each(refs: &Vec<WidgetRef>, signal: Signal) -> (plan: Vec<Delivery>)
    requires
        forall|i: int| 0 <= i < refs@.len() ==> (#[trigger] refs@[i]).slot is Some,
    ensures
        plan@ == to_each(refs@, signal),
{
    let mut plan: Vec<Delivery> = Vec::new();
    let mut i: usize = 0;
    while i < refs.len()
        invariant
            i <= refs@.len(),
            forall|k: int| 0 <= k < refs@.len() ==> (#[trigger] refs@[k]).slot is Some,
            plan@ == to_each(refs@.take(i as int), signal),
        decreases refs@.len() - i,
    {
        let r = refs[i];
        match r.slot {
            Some(id) => {
                plan.push(Delivery { target: Widget { id }, signal });
            },
            None => {},
        }
        proof {
            let f = |r: WidgetRef| Delivery { target: widget_of(r), signal };
            assert(refs@.take(i as int).push(r) =~= refs@.take(i as int + 1));
            assert(refs@.take(i as int).push(r).map_values(f) =~= refs@.take(i as int).map_values(
                f,
            ).push(f(r)));
        }
        i += 1;
    }
    assert(refs@.take(refs@.len() as int) =~= refs@);
    plan
}

impl<P: Watchers, L: Listeners<P>> Caribou<P, L> {
    /// What a layout sends when the pointer moves to `p` and `hovered` is the
    /// living part of its hover set, together with its next hover set.
    fn hover_scan(&self, me: Widget, hovered: &Vec<WidgetRef>, p: IntPair) -> (out: (
        Vec<Delivery>,
        Vec<WidgetRef>,
    ))
        requires
            self.wf(),
            self.holds(me),
            forall|i: int| 0 <= i < hovered@.len() ==> (#[trigger] hovered@[i]).slot is Some,
        ensures
            out.0@ == hover_plan(self@, self@.nodes[me.id as int].children, hovered@, p),
            out.1@ == hover_after(self@, self@.nodes[me.id as int].children, p),
    {
        proof {
            self.holds_in_range(me);
            self.owned_exist(me);
        }
        let children = self.links(me).get_children();
        let ghost kids = children@;
        let ghost hit = |c: Widget| self@.hits(c, p);
        let ghost greet = |c: Widget| approach(self@, hovered@, p, c);
        let ghost watch = |c: Widget| c.observer();
        let mut plan: Vec<Delivery> = Vec::new();
        let mut after: Vec<WidgetRef> = Vec::new();
        let mut i: usize = 0;
        while i < children.len()
            invariant
                i <= kids.len(),
                kids == children@,
                kids == self@.nodes[me.id as int].children,
                self.wf(),
                forall|k: int| 0 <= k < kids.len() ==> self.holds(#[trigger] kids[k]),
                hit == |c: Widget| self@.hits(c, p),
                greet == |c: Widget| approach(self@, hovered@, p, c),
                watch == |c: Widget| c.observer(),
                plan@ == kids.take(i as int).filter(hit).map_values(greet),
                after@ == kids.take(i as int).filter(hit).map_values(watch),
            decreases kids.len() - i,
        {
            let child = children[i];
            proof {
                assert(self.holds(kids[i as int]));
                self.holds_in_range(child);
                kids.take(i as int).lemma_filter_push(child, hit);
                assert(kids.take(i as int).push(child) =~= kids.take(i as int + 1));
                let before = kids.take(i as int).filter(hit);
                assert(before.push(child).map_values(greet) =~= before.map_values(greet).push(
                    greet(child),
                ));
                assert(before.push(child).map_values(watch) =~= before.map_values(watch).push(
                    watch(child),
                ));
            }
            let inner = self.widget(child);
            let origin = inner.position.get_copy();
            let size = inner.size.get_copy();
            if Region::origin_size(origin, size).contains(p) {
                let r = child.refer();
                if hovered.contains_ref(&r) {
                    let here = IntPair::new(p.x - origin.x, p.y - origin.y);
                    plan.push(Delivery { target: child, signal: Signal::MouseMove(here) });
                } else {
                    plan.push(Delivery { target: child, signal: Signal::MouseEnter });
                }
                after.push(r);
            }
            i += 1;
        }
        proof {
            assert(kids.take(kids.len() as int) =~= kids);
        }
        let ghost approached = plan@;
        let ghost gone = |r: WidgetRef| !after@.contains(r);
        let ghost part = |r: WidgetRef| Delivery { target: widget_of(r), signal: Signal::MouseLeave };
        let mut j: usize = 0;
        while j < hovered.len()
            invariant
                j <= hovered@.len(),
                forall|k: int| 0 <= k < hovered@.len() ==> (#[trigger] hovered@[k]).slot is Some,
                gone == |r: WidgetRef| !after@.contains(r),
                part == |r: WidgetRef|
                    (Delivery { target: widget_of(r), signal: Signal::MouseLeave }),
                plan@ == approached + hovered@.take(j as int).filter(gone).map_values(part),
            decreases hovered@.len() - j,
        {
            let r = hovered[j];
            proof {
                hovered@.take(j as int).lemma_filter_push(r, gone);
                assert(hovered@.take(j as int).push(r) =~= hovered@.take(j as int + 1));
                let before = hovered@.take(j as int).filter(gone);
                assert(before.push(r).map_values(part) =~= before.map_values(part).push(part(r)));
            }
            if !after.contains_ref(&r) {
                match r.slot {
                    Some(id) => {
                        plan.push(Delivery { target: Widget { id }, signal: Signal::MouseLeave });
                    },
                    None => {},
                }
                proof {
                    let before = hovered@.take(j as int).filter(gone);
                    assert(plan@ =~= approached + before.map_values(part).push(part(r)));
                }
            }
            j += 1;
        }
        proof {
            assert(hovered@.take(hovered@.len() as int) =~= hovered@);
        }
        (plan, after)
    }

    /// Writes the hover set `hovered` and the pointer position `pointer` into
    /// the layout `me`.
    fn set_hover(&mut self, me: Widget, hovered: Vec<WidgetRef>, pointer: IntPair)
        requires
            old(self).wf(),
            old(self).holds(me),
            old(self)@.nodes[me.id as int].kind is Layout,
        ensures
            final(self).wf(),
            final(self).steady(old(self)),
            final(self).instance() == old(self).instance(),
            final(self).redraw_pending() == old(self).redraw_pending(),
            final(self)@ == old(self)@.with_kind(
                me,
                Kind::Layout { hovered: hovered@, pointer },
            ),
    {
        proof {
            self.holds_in_range(me);
        }
        let inner = self.widget_mut(me);
        match inner.data.get_mut() {
            Some(WidgetData::Layout(layout)) => {
                layout.cur_hov = hovered;
                layout.cur_pos = pointer;
            },
            _ => {},
        }
        proof {
            self.frame_keeps_wf(old(self));
            assert(self@.nodes =~= old(self)@.with_kind(
                me,
                Kind::Layout { hovered: hovered@, pointer },
            ).nodes);
        }
    }

    /// Writes the state `state` into the button `me`.
    fn set_button_state(&mut self, me: Widget, state: ButtonState)
        requires
            old(self).wf(),
            old(self).holds(me),
            old(self)@.nodes[me.id as int].kind is Button,
        ensures
            final(self).wf(),
            final(self).steady(old(self)),
            final(self).instance() == old(self).instance(),
            final(self).redraw_pending() == old(self).redraw_pending(),
            final(self)@ == old(self)@.with_kind(
                me,
                Kind::Button {
                    state,
                    focused: old(self)@.nodes[me.id as int].kind->Button_focused,
                },
            ),
    {
        proof {
            self.holds_in_range(me);
        }
        let inner = self.widget_mut(me);
        match inner.data.get_mut() {
            Some(WidgetData::Button(button)) => {
                button.state = state;
            },
            _ => {},
        }
        proof {
            self.frame_keeps_wf(old(self));
            assert(self@.nodes =~= old(self)@.with_kind(
                me,
                Kind::Button {
                    state,
                    focused: old(self)@.nodes[me.id as int].kind->Button_focused,
                },
            ).nodes);
        }
    }

    /// Makes `holder` the holder of the focus, telling the listeners of the
    /// focus first.
    fn set_focus(&mut self, holder: WidgetRef)
        requires
            old(self).wf(),
        ensures
            final(self).wf(),
            final(self).steady(old(self)),
            final(self).inners() == old(self).inners(),
            final(self).redraw_pending() == old(self).redraw_pending(),
            final(self)@ == (World { focused: holder, ..old(self)@ }),
    {
        let instance = self.instance_mut();
        instance.focused_component.set(holder);
        proof {
            self.frame_keeps_wf(old(self));
            assert(self@.nodes =~= old(self)@.nodes);
        }
    }

    /// Lets the widget `me` react to `signal` as its flavor says, and hands out
    /// the signals it passes on and whether it broadcasts its action.
    fn react(&mut self, me: Widget, signal: Signal) -> (out: (Vec<Delivery>, bool))
        requires
            old(self).wf(),
            old(self).holds(me),
        ensures
            final(self).wf(),
            final(self).steady(old(self)),
            final(self)@ == settle(old(self)@, me, react(old(self)@, me, signal)),
            out.0@ == react(old(self)@, me, signal).plan,
            out.1 == react(old(self)@, me, signal).action,
    {
        proof {
            self.holds_in_range(me);
        }
        let ghost world = self@;
        let ghost r = react(world, me, signal);
        let inner = self.widget(me);
        match inner.data.get() {
            None => {
                proof {
                    assert(settle(world, me, r).nodes =~= world.nodes);
                }
                (Vec::new(), false)
            },
            Some(WidgetData::Layout(layout)) => {
                let mut hovered = copy_refs(&layout.cur_hov);
                let pointer = layout.cur_pos;
                hovered.clean(self.census_ref());
                proof {
                    live_is_surviving(self, layout.cur_hov@);
                    assert forall|i: int| 0 <= i < hovered@.len() implies (
                    #[trigger] hovered@[i]).slot is Some by {
                        crate::handle::surviving_reach(layout.cur_hov@, self.census(), i);
                    }
                }
                match signal {
                    Signal::MouseMove(p) => {
                        let (plan, after) = self.hover_scan(me, &hovered, p);
                        self.set_hover(me, after, p);
                        proof {
                            assert(self@.nodes =~= settle(world, me, r).nodes);
                        }
                        (plan, false)
                    },
                    Signal::MouseLeave => {
                        let plan = each(&hovered, Signal::MouseLeave);
                        self.set_hover(me, Vec::new(), pointer);
                        proof {
                            assert(self@.nodes =~= settle(world, me, r).nodes);
                        }
                        (plan, false)
                    },
                    Signal::PrimaryDown => {
                        let plan = each(&hovered, Signal::PrimaryDown);
                        self.set_hover(me, hovered, pointer);
                        proof {
                            assert(self@.nodes =~= settle(world, me, r).nodes);
                        }
                        (plan, false)
                    },
                    Signal::PrimaryUp => {
                        let plan = each(&hovered, Signal::PrimaryUp);
                        self.set_hover(me, hovered, pointer);
                        proof {
                            assert(self@.nodes =~= settle(world, me, r).nodes);
                        }
                        (plan, false)
                    },
                    _ => {
                        proof {
                            assert(settle(world, me, r).nodes =~= world.nodes);
                        }
                        (Vec::new(), false)
                    },
                }
            },
            Some(WidgetData::Button(button)) => {
                let enabled = inner.enabled.get_copy();
                match signal {
                    Signal::MouseEnter => {
                        self.set_button_state(me, ButtonState::Hover);
                        self.request_redraw();
                        proof {
                            assert(self@.nodes =~= settle(world, me, r).nodes);
                        }
                        (Vec::new(), false)
                    },
                    Signal::MouseLeave => {
                        self.set_button_state(me, ButtonState::Normal);
                        self.request_redraw();
                        proof {
                            assert(self@.nodes =~= settle(world, me, r).nodes);
                        }
                        (Vec::new(), false)
                    },
                    Signal::PrimaryDown => {
                        self.set_button_state(me, ButtonState::Pressed);
                        self.request_redraw();
                        self.set_focus(me.refer());
                        proof {
                            assert(self@.nodes =~= settle(world, me, r).nodes);
                        }
                        (Vec::new(), false)
                    },
                    Signal::PrimaryUp => {
                        self.set_button_state(me, ButtonState::Hover);
                        self.request_redraw();
                        proof {
                            assert(self@.nodes =~= settle(world, me, r).nodes);
                        }
                        (Vec::new(), enabled)
                    },
                    Signal::KeyDown(event) => {
                        if event.key.activates() {
                            self.set_button_state(me, ButtonState::Pressed);
                            self.request_redraw();
                        }
                        proof {
                            assert(self@.nodes =~= settle(world, me, r).nodes);
                        }
                        (Vec::new(), false)
                    },
                    Signal::KeyUp(event) => {
                        let fires = event.key.activates();
                        if fires {
                            self.set_button_state(me, ButtonState::Normal);
                            self.request_redraw();
                        }
                        proof {
                            assert(self@.nodes =~= settle(world, me, r).nodes);
                        }
                        (Vec::new(), fires)
                    },
                    _ => {
                        proof {
                            assert(settle(world, me, r).nodes =~= world.nodes);
                        }
                        (Vec::new(), false)
                    },
                }
            },
            Some(WidgetData::TextField(field)) => {
                let enabled = field.enabled.get_copy();
                match signal {
                    Signal::PrimaryDown => {
                        if enabled {
                            self.set_focus(me.refer());
                        }
                        proof {
                            assert(self@.nodes =~= settle(world, me, r).nodes);
                        }
                        (Vec::new(), false)
                    },
                    _ => {
                        proof {
                            assert(settle(world, me, r).nodes =~= world.nodes);
                        }
                        (Vec::new(), false)
                    },
                }
            },
        }
    }

    /// Whether the delivery `d` reached the listeners of its target, which
    /// were shown the target as `inner`: the target as it was in `before`, but
    /// for the state of its flavor.
    pub open spec fn heard_at(&self, before: &Self, d: Delivery, inner: WidgetInner<P>) -> bool {
        &&& self.holds(d.target)
        &&& d.target.id < self.inners().len()
        &&& d.target.id < before.inners().len()
        &&& before.inners()[d.target.id as int].same_but_state(&inner)
        &&& heard(self.listeners()[d.target.id as int], d.signal, &inner)
    }

    /// Whether every delivery of `trace` from place `from` on reached the
    /// listeners of its target, `shown` listing what each delivery showed them.
    pub open spec fn all_heard(
        &self,
        before: &Self,
        trace: Seq<Delivery>,
        shown: Seq<WidgetInner<P>>,
        from: int,
    ) -> bool {
        &&& shown.len() == trace.len()
        &&& forall|k: int|
            from <= k < trace.len() ==> self.heard_at(before, #[trigger] trace[k], shown[k])
    }

    /// Whether every delivery of `trace` reached the listeners of its target.
    pub open spec fn listeners_heard(&self, before: &Self, trace: Seq<Delivery>) -> bool {
        exists|shown: Seq<WidgetInner<P>>| #[trigger] self.all_heard(before, trace, shown, 0)
    }

    /// What was heard stays heard when the toolkit moves on without touching
    /// its listeners, and counts from any earlier toolkit that it settled from.
    proof fn heard_carries(
        &self,
        before: &Self,
        later: &Self,
        earlier: &Self,
        d: Delivery,
        inner: WidgetInner<P>,
    )
        requires
            self.heard_at(before, d, inner),
            later.same_frame(self),
            before.settled(earlier),
        ensures
            later.heard_at(earlier, d, inner),
    {
        assert(earlier.inners()[d.target.id as int].same_but_state(
            &before.inners()[d.target.id as int],
        ));
    }

    /// Broadcasts `d.signal` to the listeners of `d.target`, notes the
    /// broadcast at the end of `trace` and what the listeners were shown at
    /// the end of `shown`.
    fn emit(&self, d: Delivery, trace: &mut Vec<Delivery>, shown: &mut Ghost<Seq<WidgetInner<P>>>)
        requires
            self.wf(),
            self.holds(d.target),
        ensures
            final(trace)@ == old(trace)@.push(d),
            final(shown)@ == old(shown)@.push(self.inners()[d.target.id as int]),
            heard(self.listeners()[d.target.id as int], d.signal, &self.inners()[d.target.id as int]),
    {
        trace.push(d);
        proof {
            shown@ = shown@.push(self.inners()[d.target.id as int]);
        }
        let inner = self.widget(d.target);
        let events = self.events(d.target);
        match d.signal {
            Signal::MouseMove(p) => {
                let _heard: Vec<()> = events.on_mouse_move.broadcast_with(inner, &p);
            },
            Signal::MouseEnter => {
                let _heard: Vec<()> = events.on_mouse_enter.broadcast(inner);
            },
            Signal::MouseLeave => {
                let _heard: Vec<()> = events.on_mouse_leave.broadcast(inner);
            },
            Signal::PrimaryDown => {
                let _heard: Vec<()> = events.on_primary_down.broadcast(inner);
            },
            Signal::PrimaryUp => {
                let _heard: Vec<()> = events.on_primary_up.broadcast(inner);
            },
            Signal::SecondaryDown => {
                let _heard: Vec<()> = events.on_secondary_down.broadcast(inner);
            },
            Signal::SecondaryUp => {
                let _heard: Vec<()> = events.on_secondary_up.broadcast(inner);
            },
            Signal::TertiaryDown => {
                let _heard: Vec<()> = events.on_tertiary_down.broadcast(inner);
            },
            Signal::TertiaryUp => {
                let _heard: Vec<()> = events.on_tertiary_up.broadcast(inner);
            },
            Signal::KeyDown(event) => {
                let _heard: Vec<()> = events.on_key_down.broadcast_with(inner, &event);
            },
            Signal::KeyUp(event) => {
                let _heard: Vec<()> = events.on_key_up.broadcast_with(inner, &event);
            },
            Signal::Update => {
                let _heard: Vec<()> = events.on_update.broadcast(inner);
            },
            Signal::Action(payload) => {
                let _heard: Vec<()> = events.action.broadcast_with(inner, &payload);
            },
        }
    }

    /// Delivers `d`, following what is passed on for `depth` levels, and notes
    /// every broadcast that reaches listeners at the end of `trace`.
    fn deliver(
        &mut self,
        d: Delivery,
        depth: usize,
        trace: &mut Vec<Delivery>,
        shown: &mut Ghost<Seq<WidgetInner<P>>>,
    )
        requires
            old(self).wf(),
            old(shown)@.len() == old(trace)@.len(),
        ensures
            final(self).wf(),
            final(self).steady(old(self)),
            final(self)@ == deliver(old(self)@, d, depth as nat).0,
            final(trace)@ == old(trace)@ + deliver(old(self)@, d, depth as nat).1,
            final(self).all_heard(old(self), final(trace)@, final(shown)@, old(trace)@.len() as int),
            final(shown)@.take(old(shown)@.len() as int) == old(shown)@,
        decreases depth, 0nat,
    {
        if depth == 0 || !self.is_alive(&d.target) {
            proof {
                if self.holds(d.target) {
                    self.holds_in_range(d.target);
                } else if d.target.id < self.inners().len() {
                    assert(!self@.nodes[d.target.id as int].alive);
                }
                assert(old(trace)@ + Seq::<Delivery>::empty() =~= old(trace)@);
            }
            assert(shown@.take(shown@.len() as int) =~= shown@);
            return ;
        }
        proof {
            self.holds_in_range(d.target);
        }
        let (plan, action) = self.react(d.target, d.signal);
        let ghost reacted = *self;
        self.deliver_all(&plan, depth - 1, trace, shown);
        let ghost passed = trace@;
        let ghost seen = shown@;
        if action {
            self.emit(Delivery { target: d.target, signal: Signal::Action(0) }, trace, shown);
        }
        self.emit(d, trace, shown);
        proof {
            let r = react(old(self)@, d.target, d.signal);
            let tail = deliver_all(reacted@, plan@, (depth - 1) as nat).1;
            assert(trace@ =~= old(trace)@ + (tail + emits(d.target, d.signal, r.action)));
            assert forall|k: int| old(trace)@.len() <= k < trace@.len() implies self.heard_at(
                old(self),
                #[trigger] trace@[k],
                shown@[k],
            ) by {
                if k < passed.len() {
                    assert(trace@[k] == passed[k]);
                    assert(shown@[k] == seen[k]);
                    assert(self.heard_at(&reacted, passed[k], seen[k]));
                    self.heard_carries(&reacted, self, old(self), passed[k], seen[k]);
                }
            }
            assert(shown@.take(old(shown)@.len() as int) =~= old(shown)@) by {
                assert(seen.take(old(shown)@.len() as int) == old(shown)@);
            }
        }
    }

    /// Delivers the signals of `plan`, one after the other.
    fn deliver_all(
        &mut self,
        plan: &Vec<Delivery>,
        depth: usize,
        trace: &mut Vec<Delivery>,
        shown: &mut Ghost<Seq<WidgetInner<P>>>,
    )
        requires
            old(self).wf(),
            old(shown)@.len() == old(trace)@.len(),
        ensures
            final(self).wf(),
            final(self).steady(old(self)),
            final(self)@ == deliver_all(old(self)@, plan@, depth as nat).0,
            final(trace)@ == old(trace)@ + deliver_all(old(self)@, plan@, depth as nat).1,
            final(self).all_heard(old(self), final(trace)@, final(shown)@, old(trace)@.len() as int),
            final(shown)@.take(old(shown)@.len() as int) == old(shown)@,
        decreases depth, 1 + plan@.len(),
    {
        let mut i: usize = 0;
        proof {
            assert(plan@.skip(0) =~= plan@);
            assert(old(trace)@ + Seq::<Delivery>::empty() =~= old(trace)@);
            assert(shown@.take(shown@.len() as int) =~= shown@);
        }
        let ghost mut heard: Seq<Delivery> = Seq::empty();
        while i < plan.len()
            invariant
                i <= plan@.len(),
                self.wf(),
                self.steady(old(self)),
                trace@ == old(trace)@ + heard,
                self.all_heard(old(self), trace@, shown@, old(trace)@.len() as int),
                shown@.take(old(shown)@.len() as int) == old(shown)@,
                old(shown)@.len() == old(trace)@.len(),
                deliver_all(self@, plan@.skip(i as int), depth as nat).0 == deliver_all(
                    old(self)@,
                    plan@,
                    depth as nat,
                ).0,
                heard + deliver_all(self@, plan@.skip(i as int), depth as nat).1 == deliver_all(
                    old(self)@,
                    plan@,
                    depth as nat,
                ).1,
            decreases plan@.len() - i,
        {
            let ghost before = *self;
            let ghost rest = plan@.skip(i as int);
            let ghost passed = trace@;
            let ghost seen = shown@;
            proof {
                assert(rest.len() > 0);
                assert(rest[0] == plan@[i as int]);
                assert(rest.skip(1) =~= plan@.skip(i as int + 1));
            }
            self.deliver(plan[i], depth, trace, shown);
            proof {
                let step = deliver(before@, plan@[i as int], depth as nat);
                let more = deliver_all(step.0, plan@.skip(i as int + 1), depth as nat);
                assert(deliver_all(before@, rest, depth as nat).1 == step.1 + more.1);
                assert((heard + step.1) + more.1 =~= heard + (step.1 + more.1));
                assert(trace@ =~= old(trace)@ + (heard + step.1));
                heard = heard + step.1;
                assert forall|k: int| old(trace)@.len() <= k < trace@.len() implies self.heard_at(
                    old(self),
                    #[trigger] trace@[k],
                    shown@[k],
                ) by {
                    if k < passed.len() {
                        assert(trace@[k] == passed[k]);
                        assert(shown@.take(seen.len() as int)[k] == seen[k]);
                        assert(before.heard_at(old(self), passed[k], seen[k]));
                        assert(self.holds(passed[k].target));
                    } else {
                        self.heard_carries(&before, self, old(self), trace@[k], shown@[k]);
                    }
                }
                assert(shown@.take(old(shown)@.len() as int) =~= old(shown)@) by {
                    assert(seen.take(old(shown)@.len() as int) == old(shown)@);
                    assert(shown@.take(seen.len() as int) == seen);
                }
            }
            i += 1;
        }
        proof {
            assert(plan@.skip(plan@.len() as int).len() == 0);
            assert(heard + Seq::<Delivery>::empty() =~= heard);
        }
    }

    /// Broadcasts `signal` on `target`: the widget reacts as its flavor says,
    /// what it passes on is delivered in turn, and the listeners hear of it. The
    /// answer lists every broadcast that reached listeners, in order.
    pub fn dispatch(&mut self, target: Widget, signal: Signal) -> (trace: Vec<Delivery>)
        requires
            old(self).wf(),
        ensures
            final(self).wf(),
            final(self).steady(old(self)),
            final(self)@ == dispatch(old(self)@, target, signal).0,
            trace@ == dispatch(old(self)@, target, signal).1,
            final(self).listeners_heard(old(self), trace@),
    {
        let mut trace: Vec<Delivery> = Vec::new();
        let mut shown: Ghost<Seq<WidgetInner<P>>> = Ghost(Seq::empty());
        let depth = self.widget_count();
        self.deliver(Delivery { target, signal }, depth, &mut trace, &mut shown);
        proof {
            assert(Seq::<Delivery>::empty() + dispatch(old(self)@, target, signal).1
                =~= dispatch(old(self)@, target, signal).1);
            assert(self.all_heard(old(self), trace@, shown@, 0));
        }
        trace
    }
}

} // verus!
