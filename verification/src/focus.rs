//! The focus: offering it to a widget, taking it from one, walking the tab
//! order, and routing the keyboard to whoever holds it.

use crate::caribou::Caribou;
use crate::event::{answered, any, ZeroArg};
use crate::handle::{copy_refs, surviving, Widget, WidgetAcquire, WidgetRef};
use crate::input::KeyEvent;
use crate::model::{
    dispatch, first_place, gain_turn, lose_turn, offered, seat, tab_order, turned, walk_start,
    widget_of, Delivery, Kind, Signal, World,
};
use crate::routing::told_with;
use crate::widget::{Listeners, Watchers, WidgetInner};
use crate::widgets::WidgetData;
use vstd::prelude::*;

verus! {

/// The first place of `r` in `order`, if it has one.
pub fn position(order: &Vec<WidgetRef>, r: &WidgetRef) -> (at: Option<usize>)
    ensures
        at is None <==> !order@.contains(*r),
        at matches Some(i) ==> i < order@.len() && i == first_place(order@, *r) && order@[i as int]
            == *r,
{
    let mut i: usize = 0;
    proof {
        assert(order@.skip(0) =~= order@);
    }
    while i < order.len()
        invariant
            i <= order@.len(),
            forall|k: int| 0 <= k < i ==> order@[k] != *r,
            first_place(order@, *r) == i + first_place(order@.skip(i as int), *r),
        decreases order@.len() - i,
    {
        proof {
            assert(order@.skip(i as int)[0] == order@[i as int]);
            assert(order@.skip(i as int).skip(1) =~= order@.skip(i as int + 1));
        }
        if order[i].same_as(r) {
            return Some(i);
        }
        i += 1;
    }
    None
}

/// What became of a key that the platform reported.
pub enum KeyOutcome {
    /// The keyboard is not routed yet: only the listeners of the user
    /// interface itself heard of the key.
    Unrouted,
    /// Tab was pressed and the focus was asked to move on; the flag says
    /// whether it did.
    FocusMoved(bool),
    /// The key went to the holder of the focus; these are the broadcasts that
    /// reached listeners.
    Delivered(Vec<Delivery>),
    /// Nobody holds the focus.
    NoHolder,
}

impl<P: Watchers, L: Listeners<P>> Caribou<P, L> {
    /// Whether `listener` answers `false` whatever it is shown.
    pub open spec fn always_refuses(listener: L::Veto) -> bool {
        forall|inner: &WidgetInner<P>, answer: bool|
            (#[trigger] listener.responds(inner, answer)) ==> !answer
    }

    /// Whether some listener of `widget` refuses every request to give up the focus.
    pub open spec fn never_yields(&self, widget: Widget) -> bool {
        exists|k: int|
            0 <= k < self.listeners()[widget.id as int].on_lose_focus@.len()
                && Self::always_refuses(
                (#[trigger] self.listeners()[widget.id as int].on_lose_focus@[k]).func,
            )
    }

    /// Writes the focus mark into the button or text field `me`.
    fn mark_focused(&mut self, me: Widget, focused: bool)
        requires
            old(self).wf(),
            old(self).holds(me),
        ensures
            final(self).wf(),
            final(self).settled(old(self)),
            final(self).instance() == old(self).instance(),
            final(self).redraw_pending() == old(self).redraw_pending(),
            final(self)@ == old(self)@.with_kind(
                me,
                match old(self)@.nodes[me.id as int].kind {
                    Kind::Button { state, .. } => Kind::Button { state, focused },
                    Kind::TextField { enabled, .. } => Kind::TextField { enabled, focused },
                    other => other,
                },
            ),
    {
        proof {
            self.holds_in_range(me);
        }
        let inner = self.widget_mut(me);
        match inner.data.get_mut() {
            Some(WidgetData::Button(button)) => {
                button.focused = focused;
            },
            Some(WidgetData::TextField(field)) => {
                field.focused = focused;
            },
            _ => {},
        }
        proof {
            self.frame_keeps_wf(old(self));
            assert(self@.nodes =~= old(self)@.with_kind(
                me,
                match old(self)@.nodes[me.id as int].kind {
                    Kind::Button { state, .. } => Kind::Button { state, focused },
                    Kind::TextField { enabled, .. } => Kind::TextField { enabled, focused },
                    other => other,
                },
            ).nodes);
        }
    }

    /// Whether the button or text field `widget` would take the focus; nothing
    /// for other widgets.
    fn accepts(&self, widget: Widget) -> (answer: Option<bool>)
        requires
            self.wf(),
            self.holds(widget),
        ensures
            match answer {
                Some(yes) => gain_turn(self@.nodes[widget.id as int]).answer == seq![yes],
                None => gain_turn(self@.nodes[widget.id as int]).answer == Seq::<bool>::empty(),
            },
            answer == Some(true) <==> gain_turn(self@.nodes[widget.id as int]).redraw,
            answer != Some(true) ==> gain_turn(self@.nodes[widget.id as int]).kind
                == self@.nodes[widget.id as int].kind,
            answer is Some <==> (self@.nodes[widget.id as int].kind is Button
                || self@.nodes[widget.id as int].kind is TextField),
    {
        proof {
            self.holds_in_range(widget);
        }
        let inner = self.widget(widget);
        match inner.data.get() {
            Some(WidgetData::Button(_)) => Some(inner.enabled.get_copy()),
            Some(WidgetData::TextField(field)) => Some(field.enabled.get_copy()),
            _ => None,
        }
    }

    /// Offers the focus to `widget`: the widget answers for itself as its
    /// flavor says, then its listeners answer, first subscribed first. An
    /// answer of `false` refuses.
    pub fn gain_focus(&mut self, widget: Widget) -> (answers: Vec<bool>)
        requires
            old(self).wf(),
            old(self).holds(widget),
        ensures
            final(self).wf(),
            final(self).settled(old(self)),
            final(self).instance() == old(self).instance(),
            final(self)@ == turned(old(self)@, widget, gain_turn(old(self)@.nodes[widget.id as int])),
            exists|heard: Seq<bool>|
                answered(
                    final(self).listeners()[widget.id as int].on_gain_focus@,
                    &final(self).inners()[widget.id as int],
                    heard,
                ) && answers@ == gain_turn(old(self)@.nodes[widget.id as int]).answer + heard,
    {
        proof {
            self.holds_in_range(widget);
        }
        let ghost world = self@;
        let ghost turn = gain_turn(world.nodes[widget.id as int]);
        let mut answers: Vec<bool> = Vec::new();
        match self.accepts(widget) {
            Some(true) => {
                self.mark_focused(widget, true);
                self.request_redraw();
                answers.push(true);
            },
            Some(false) => {
                answers.push(false);
            },
            None => {},
        }
        proof {
            assert(self@.nodes =~= turned(world, widget, turn).nodes);
            assert(answers@ =~= turn.answer);
        }
        let mut heard = self.events(widget).on_gain_focus.broadcast(self.widget(widget));
        answers.append(&mut heard);
        answers
    }

    /// Asks `widget` to give up the focus: the widget answers for itself as its
    /// flavor says, then its listeners answer, first subscribed first. An
    /// answer of `false` refuses.
    pub fn lose_focus(&mut self, widget: Widget) -> (answers: Vec<bool>)
        requires
            old(self).wf(),
            old(self).holds(widget),
        ensures
            final(self).wf(),
            final(self).settled(old(self)),
            final(self).instance() == old(self).instance(),
            final(self)@ == turned(old(self)@, widget, lose_turn(old(self)@.nodes[widget.id as int])),
            exists|heard: Seq<bool>|
                answered(
                    final(self).listeners()[widget.id as int].on_lose_focus@,
                    &final(self).inners()[widget.id as int],
                    heard,
                ) && answers@ == lose_turn(old(self)@.nodes[widget.id as int]).answer + heard,
    {
        proof {
            self.holds_in_range(widget);
        }
        let ghost world = self@;
        let ghost turn = lose_turn(world.nodes[widget.id as int]);
        let mut answers: Vec<bool> = Vec::new();
        match self.accepts(widget) {
            Some(_) => {
                self.mark_focused(widget, false);
                self.request_redraw();
                answers.push(true);
            },
            None => {},
        }
        proof {
            assert(self@.nodes =~= turned(world, widget, turn).nodes);
            assert(answers@ =~= turn.answer);
        }
        let mut heard = self.events(widget).on_lose_focus.broadcast(self.widget(widget));
        answers.append(&mut heard);
        answers
    }

    /// Whether `listeners` can have given answers that, put behind the
    /// widget's own answers `own`, hold a refusal, for `refused`, or hold none.
    pub open spec fn voted(
        listeners: Seq<crate::event::Subscriber<L::Veto>>,
        own: Seq<bool>,
        refused: bool,
    ) -> bool {
        exists|inner: WidgetInner<P>, heard: Seq<bool>|
            #![trigger answered(listeners, &inner, heard)]
            answered(listeners, &inner, heard) && (own + heard).contains(false) == refused
    }

    /// Whether the candidate `widget` can have declined the focus in `world`:
    /// there is a refusal among its own answer and the answers of its listeners.
    pub open spec fn declined(before: &Self, world: World, widget: Widget) -> bool {
        Self::voted(
            before.listeners()[widget.id as int].on_gain_focus@,
            gain_turn(world.nodes[widget.id as int]).answer,
            true,
        )
    }

    /// Whether the candidate `widget` can have accepted the focus in `world`:
    /// there is no refusal among its own answer and the answers of its listeners.
    pub open spec fn consented(before: &Self, world: World, widget: Widget) -> bool {
        Self::voted(
            before.listeners()[widget.id as int].on_gain_focus@,
            gain_turn(world.nodes[widget.id as int]).answer,
            false,
        )
    }

    /// Whether the holder of the focus in `before`, asked to give the focus
    /// up, can have refused, for `refused`, or can have consented.
    pub open spec fn yielding(before: &Self, refused: bool) -> bool {
        let holder = widget_of(before@.focused);
        Self::voted(
            before.listeners()[holder.id as int].on_lose_focus@,
            lose_turn(before@.nodes[holder.id as int]).answer,
            refused,
        )
    }

    /// Whether `after` and `moved` are the outcome of a walk that began at
    /// `start` in the world `yielded` and offered the focus to `asked` entries.
    ///
    /// The widgets are what the offers made of them. Either the walk was
    /// stopped before its first offer, because the holder or one of its
    /// listeners refused to yield; or the holder, if there was one, consented,
    /// every entry before the last one asked declined, and the last one asked
    /// consented and holds the focus now, or declined too at the end of a walk
    /// all the way around.
    pub open spec fn walked(
        before: &Self,
        after: &Self,
        moved: bool,
        order: Seq<WidgetRef>,
        yielded: World,
        start: int,
        asked: nat,
    ) -> bool {
        let n = order.len() as int;
        let holder = before@.focused;
        let reached = offered(yielded, order, start, asked);
        let held = before.census().reaches(holder);
        let stopped = !moved && asked == 0 && held && Self::yielding(before, true);
        &&& after@.nodes == reached.nodes
        &&& after@.redraw == reached.redraw
        &&& moved ==> after@.focused == order[seat(n, start, asked - 1)]
        &&& !moved ==> after@.focused == holder
        &&& stopped || ((held ==> Self::yielding(before, false)) && Self::stepped(
            before,
            moved,
            order,
            yielded,
            start,
            asked,
        ))
    }

    /// Whether `after` is `before` once the focus was asked to move on along
    /// the tab order, and `moved` the answer.
    ///
    /// Both tab orders have lost their dead entries. The order that counts is
    /// the manual one while it has entries, else the automatic one. With
    /// nothing in it the focus is cleared and the move counts as done. Else a
    /// living holder is first asked to yield, and then the walk begins one past
    /// the holder's place. A move that succeeds hands the focus to an entry of
    /// the order that counts. A living holder with a listener that refuses
    /// every request to give up the focus is never displaced.
    pub open spec fn circulated(before: &Self, after: &Self, moved: bool) -> bool {
        let manual = surviving(before.instance().manual_tab_order@, before.census());
        let auto = surviving(before.instance().auto_tab_order@, before.census());
        let order = tab_order(manual, auto);
        let holder = before@.focused;
        let held = before.census().reaches(holder);
        let yielded = if held {
            turned(
                before@,
                widget_of(holder),
                lose_turn(before@.nodes[widget_of(holder).id as int]),
            )
        } else {
            before@
        };
        let start = if held {
            walk_start(order, holder)
        } else {
            0
        };
        &&& after.settled(before)
        &&& after.instance().manual_tab_order@ == manual
        &&& after.instance().auto_tab_order@ == auto
        &&& after.instance().on_key_down == before.instance().on_key_down
        &&& after.instance().on_key_up == before.instance().on_key_up
        &&& after.instance().routing == before.instance().routing
        &&& before.instance().focused_component.same_watch(&after.instance().focused_component)
        &&& order.len() == 0 ==> moved && after@.focused == WidgetRef::nothing() && after@.nodes
            == before@.nodes && after@.redraw == before@.redraw
        &&& order.len() > 0 ==> Self::walked_some(before, after, moved, order, yielded, start)
        &&& moved && order.len() > 0 ==> order.contains(after@.focused) && after.census().reaches(
            after@.focused,
        )
        &&& order.len() > 0 && held && before.never_yields(widget_of(holder)) ==> !moved
    }

    /// Whether `after` and `moved` are the outcome of a walk that began at
    /// `start` in the world `yielded`, after some number of offers.
    pub open spec fn walked_some(
        before: &Self,
        after: &Self,
        moved: bool,
        order: Seq<WidgetRef>,
        yielded: World,
        start: int,
    ) -> bool {
        exists|asked: nat| #[trigger] Self::walked(before, after, moved, order, yielded, start, asked)
    }

    /// Whether the walk that began at `start` in the world `yielded` can have
    /// come to an end after `asked` offers, with the last one `accepted` or not.
    pub open spec fn stepped(
        before: &Self,
        accepted: bool,
        order: Seq<WidgetRef>,
        yielded: World,
        start: int,
        asked: nat,
    ) -> bool {
        let n = order.len() as int;
        let declining = if accepted {
            asked - 1
        } else {
            asked as int
        };
        &&& asked <= n
        &&& forall|step: int|
            0 <= step < declining ==> Self::declined(
                before,
                offered(yielded, order, start, step as nat),
                widget_of(order[#[trigger] seat(n, start, step)]),
            )
        &&& accepted ==> asked >= 1 && Self::consented(
            before,
            offered(yielded, order, start, (asked - 1) as nat),
            widget_of(order[seat(n, start, asked - 1)]),
        )
        &&& !accepted ==> asked == n
    }

    /// Offers the focus to `candidate` and says whether it accepted, with all
    /// its listeners.
    fn offer(&mut self, candidate: Widget) -> (accepted: bool)
        requires
            old(self).wf(),
            old(self).holds(candidate),
        ensures
            final(self).wf(),
            final(self).settled(old(self)),
            final(self).instance() == old(self).instance(),
            final(self)@ == turned(
                old(self)@,
                candidate,
                gain_turn(old(self)@.nodes[candidate.id as int]),
            ),
            accepted ==> Self::consented(old(self), old(self)@, candidate),
            !accepted ==> Self::declined(old(self), old(self)@, candidate),
    {
        proof {
            self.holds_in_range(candidate);
        }
        let answers = self.gain_focus(candidate);
        let accepted = !any(&answers, false);
        proof {
            let own = gain_turn(old(self)@.nodes[candidate.id as int]).answer;
            let listeners = old(self).listeners()[candidate.id as int].on_gain_focus@;
            let heard = choose|heard: Seq<bool>|
                answered(
                    self.listeners()[candidate.id as int].on_gain_focus@,
                    &self.inners()[candidate.id as int],
                    heard,
                ) && answers@ == own + heard;
            assert(answered(listeners, &self.inners()[candidate.id as int], heard));
            assert(Self::voted(listeners, own, !accepted));
        }
        accepted
    }

    /// Being settled carries over: what is settled against something settled
    /// is settled against what that was settled against.
    proof fn settled_chains(&self, middle: &Self, before: &Self)
        requires
            self.settled(middle),
            middle.settled(before),
        ensures
            self.settled(before),
    {
        assert forall|i: int| 0 <= i < self.inners().len() implies (
        #[trigger] before.inners()[i]).same_but_state(&self.inners()[i]) by {
            assert(before.inners()[i].same_but_state(&middle.inners()[i]));
            assert(middle.inners()[i].same_but_state(&self.inners()[i]));
        }
    }

    /// Offers the focus to the entries of `order` in turn, beginning at
    /// `start` and going around the end, until one accepts with all its
    /// listeners. The answer says whether one did and how many were asked.
    fn walk(&mut self, order: &Vec<WidgetRef>, start: usize) -> (out: (bool, usize))
        requires
            old(self).wf(),
            order@.len() > 0,
            start < order@.len(),
            forall|i: int| 0 <= i < order@.len() ==> old(self).census().reaches(#[trigger] order@[i]),
        ensures
            final(self).wf(),
            final(self).settled(old(self)),
            final(self).instance() == old(self).instance(),
            final(self)@ == offered(old(self)@, order@, start as int, out.1 as nat),
            Self::stepped(old(self), out.0, order@, old(self)@, start as int, out.1 as nat),
    {
        let n = order.len();
        let ghost yielded = self@;
        let mut tried: usize = 0;
        while tried < n
            invariant
                tried <= n,
                n == order@.len(),
                n > 0,
                start < n,
                self.wf(),
                self.settled(old(self)),
                self.instance() == old(self).instance(),
                yielded == old(self)@,
                forall|i: int| 0 <= i < order@.len() ==> self.census().reaches(#[trigger] order@[i]),
                self@ == offered(yielded, order@, start as int, tried as nat),
                forall|step: int|
                    0 <= step < tried ==> Self::declined(
                        old(self),
                        offered(yielded, order@, start as int, step as nat),
                        widget_of(order@[#[trigger] seat(n as int, start as int, step)]),
                    ),
            decreases n - tried,
        {
            let next: usize = if tried >= n - start {
                tried - (n - start)
            } else {
                start + tried
            };
            let entry = order[next];
            let ghost offering = *self;
            proof {
                assert(next == seat(n as int, start as int, tried as int));
                assert(self.census().reaches(order@[next as int]));
            }
            match entry.acquire(self.census_ref()) {
                Some(candidate) => {
                    let accepted = self.offer(candidate);
                    proof {
                        assert(candidate == widget_of(entry));
                        self.settled_chains(&offering, old(self));
                        assert(self.listeners() == old(self).listeners());
                    }
                    if accepted {
                        return (true, tried + 1);
                    }
                    proof {
                        assert(Self::declined(old(self), offering@, candidate));
                    }
                },
                None => {
                    assert(false);
                },
            }
            tried += 1;
        }
        (false, n)
    }

    /// Asks the holder of the focus, if it still exists, to give the focus up,
    /// and says whether the walk may begin.
    fn ask_to_yield(&mut self) -> (free: bool)
        requires
            old(self).wf(),
        ensures
            final(self).wf(),
            final(self).settled(old(self)),
            final(self).instance() == old(self).instance(),
            final(self)@ == if old(self).census().reaches(old(self)@.focused) {
                turned(
                    old(self)@,
                    widget_of(old(self)@.focused),
                    lose_turn(old(self)@.nodes[widget_of(old(self)@.focused).id as int]),
                )
            } else {
                old(self)@
            },
            !old(self).census().reaches(old(self)@.focused) ==> free,
            old(self).census().reaches(old(self)@.focused) ==> Self::yielding(old(self), !free),
            old(self).census().reaches(old(self)@.focused) && old(self).never_yields(
                widget_of(old(self)@.focused),
            ) ==> !free,
    {
        let current = self.instance_ref().focused_component.get_copy();
        match current.acquire(self.census_ref()) {
            Some(holder) => {
                proof {
                    self.holds_in_range(holder);
                }
                let answers = self.lose_focus(holder);
                let refused = any(&answers, false);
                proof {
                    let heard = choose|heard: Seq<bool>|
                        answered(
                            self.listeners()[holder.id as int].on_lose_focus@,
                            &self.inners()[holder.id as int],
                            heard,
                        ) && answers@ == lose_turn(old(self)@.nodes[holder.id as int]).answer
                            + heard;
                    let own = lose_turn(old(self)@.nodes[holder.id as int]).answer;
                    if old(self).never_yields(holder) {
                        let k = choose|k: int|
                            0 <= k < old(self).listeners()[holder.id as int].on_lose_focus@.len()
                                && Self::always_refuses(
                                (#[trigger] old(self).listeners()[holder.id as int].on_lose_focus@[k]).func,
                            );
                        assert(self.listeners()[holder.id as int].on_lose_focus@[k].func.responds(
                            &self.inners()[holder.id as int],
                            heard[k],
                        ));
                        assert(!heard[k]);
                        assert(answers@[own.len() + k] == heard[k]);
                        assert(answers@.contains(false));
                    }
                    let listeners = old(self).listeners()[holder.id as int].on_lose_focus@;
                    assert(answered(listeners, &self.inners()[holder.id as int], heard));
                    assert(Self::voted(listeners, own, refused));
                }
                !refused
            },
            None => true,
        }
    }

    /// Where the walk begins in `order` when `current` held the focus.
    fn begin_after(order: &Vec<WidgetRef>, current: &WidgetRef) -> (start: usize)
        requires
            order@.len() > 0,
        ensures
            start == walk_start(order@, *current),
            start < order@.len(),
    {
        match position(order, current) {
            Some(at) => if at < order.len() - 1 {
                at + 1
            } else {
                0
            },
            None => 0,
        }
    }

    /// Makes `holder` the holder of the focus without telling anybody.
    fn hand_over(&mut self, holder: WidgetRef)
        requires
            old(self).wf(),
        ensures
            final(self).wf(),
            final(self).settled(old(self)),
            final(self).inners() == old(self).inners(),
            final(self)@ == (World { focused: holder, ..old(self)@ }),
            final(self).instance().manual_tab_order == old(self).instance().manual_tab_order,
            final(self).instance().auto_tab_order == old(self).instance().auto_tab_order,
            final(self).instance().on_key_down == old(self).instance().on_key_down,
            final(self).instance().on_key_up == old(self).instance().on_key_up,
            final(self).instance().routing == old(self).instance().routing,
            old(self).instance().focused_component.same_watch(
                &final(self).instance().focused_component,
            ),
    {
        let instance = self.instance_mut();
        let slot = instance.focused_component.get_mut();
        *slot = holder;
        proof {
            self.frame_keeps_wf(old(self));
            assert(self@.nodes =~= old(self)@.nodes);
        }
    }

    /// What a walk did depends on the toolkit it began in only through the
    /// listeners of its widgets.
    proof fn stepped_carries(
        a: &Self,
        b: &Self,
        accepted: bool,
        order: Seq<WidgetRef>,
        yielded: World,
        start: int,
        asked: nat,
    )
        requires
            a.listeners() == b.listeners(),
            Self::stepped(a, accepted, order, yielded, start, asked),
        ensures
            Self::stepped(b, accepted, order, yielded, start, asked),
    {
        let n = order.len() as int;
        let declining = if accepted {
            asked - 1
        } else {
            asked as int
        };
        assert forall|step: int| 0 <= step < declining implies Self::declined(
            b,
            offered(yielded, order, start, step as nat),
            widget_of(order[#[trigger] seat(n, start, step)]),
        ) by {
            assert(Self::declined(
                a,
                offered(yielded, order, start, step as nat),
                widget_of(order[seat(n, start, step)]),
            ));
        }
        if accepted {
            assert(Self::consented(
                a,
                offered(yielded, order, start, (asked - 1) as nat),
                widget_of(order[seat(n, start, asked - 1)]),
            ));
        }
    }

    /// Puts together what the steps of a move of the focus have established.
    proof fn circulated_when_walked(
        before: &Self,
        after: &Self,
        moved: bool,
        order: Seq<WidgetRef>,
        yielded: World,
        start: int,
        asked: nat,
    )
        requires
            after.settled(before),
            after.instance().manual_tab_order@ == surviving(
                before.instance().manual_tab_order@,
                before.census(),
            ),
            after.instance().auto_tab_order@ == surviving(
                before.instance().auto_tab_order@,
                before.census(),
            ),
            after.instance().on_key_down == before.instance().on_key_down,
            after.instance().on_key_up == before.instance().on_key_up,
            after.instance().routing == before.instance().routing,
            before.instance().focused_component.same_watch(&after.instance().focused_component),
            order == tab_order(
                after.instance().manual_tab_order@,
                after.instance().auto_tab_order@,
            ),
            order.len() > 0,
            yielded == if before.census().reaches(before@.focused) {
                turned(
                    before@,
                    widget_of(before@.focused),
                    lose_turn(before@.nodes[widget_of(before@.focused).id as int]),
                )
            } else {
                before@
            },
            start == if before.census().reaches(before@.focused) {
                walk_start(order, before@.focused)
            } else {
                0
            },
            Self::walked(before, after, moved, order, yielded, start, asked),
            moved ==> order.contains(after@.focused) && after.census().reaches(after@.focused),
            before.census().reaches(before@.focused) && before.never_yields(
                widget_of(before@.focused),
            ) ==> !moved,
        ensures
            Self::circulated(before, after, moved),
    {
        let manual = surviving(before.instance().manual_tab_order@, before.census());
        let auto = surviving(before.instance().auto_tab_order@, before.census());
        let counted = tab_order(manual, auto);
        let holder = before@.focused;
        let held = before.census().reaches(holder);
        let given_up = if held {
            turned(
                before@,
                widget_of(holder),
                lose_turn(before@.nodes[widget_of(holder).id as int]),
            )
        } else {
            before@
        };
        let begin = if held {
            walk_start(counted, holder)
        } else {
            0
        };
        assert(order == counted);
        assert(yielded == given_up);
        assert(start == begin);
        assert(Self::walked(before, after, moved, counted, given_up, begin, asked));
        assert(Self::walked_some(before, after, moved, counted, given_up, begin));
    }

    /// What a walk came to depends on the toolkit it began in only through its
    /// model, its census and the listeners of its widgets.
    proof fn walked_carries(
        a: &Self,
        b: &Self,
        after: &Self,
        moved: bool,
        order: Seq<WidgetRef>,
        yielded: World,
        start: int,
        asked: nat,
    )
        requires
            a.listeners() == b.listeners(),
            a.census() == b.census(),
            a@ == b@,
            Self::walked(a, after, moved, order, yielded, start, asked),
        ensures
            Self::walked(b, after, moved, order, yielded, start, asked),
    {
        if Self::stepped(a, moved, order, yielded, start, asked) {
            Self::stepped_carries(a, b, moved, order, yielded, start, asked);
        }
        assert(Self::yielding(a, true) == Self::yielding(b, true));
        assert(Self::yielding(a, false) == Self::yielding(b, false));
    }

    /// Moves the focus on along the tab order.
    ///
    /// The holder of the focus, if it still exists, is asked to give the focus
    /// up; if it or one of its listeners refuses, nothing moves. Then the
    /// entries of the tab order are offered the focus in turn, beginning one
    /// past the holder's place and going around the end; the first that
    /// accepts, with all its listeners, holds the focus from then on. If none
    /// accepts the move fails.
    pub fn circulate_focus(&mut self) -> (moved: bool)
        requires
            old(self).wf(),
        ensures
            final(self).wf(),
            Self::circulated(old(self), final(self), moved),
    {
        self.purge_tab_orders();
        let order = if self.instance_ref().manual_tab_order.len() > 0 {
            copy_refs(&self.instance_ref().manual_tab_order)
        } else {
            copy_refs(&self.instance_ref().auto_tab_order)
        };
        let ghost purged = *self;
        if order.len() == 0 {
            self.clear_focus();
            true
        } else {
            proof {
                assert forall|i: int| 0 <= i < order@.len() implies self.census().reaches(
                    #[trigger] order@[i],
                ) by {
                    if purged.instance().manual_tab_order@.len() > 0 {
                        crate::handle::surviving_reach(
                            old(self).instance().manual_tab_order@,
                            self.census(),
                            i,
                        );
                    } else {
                        crate::handle::surviving_reach(
                            old(self).instance().auto_tab_order@,
                            self.census(),
                            i,
                        );
                    }
                }
            }
            let moved = self.move_along(&order);
            proof {
                let holder = purged@.focused;
                let held = purged.census().reaches(holder);
                let yielded = if held {
                    turned(
                        purged@,
                        widget_of(holder),
                        lose_turn(purged@.nodes[widget_of(holder).id as int]),
                    )
                } else {
                    purged@
                };
                let start = if held {
                    walk_start(order@, holder)
                } else {
                    0
                };
                let asked = choose|asked: nat| #[trigger]
                    Self::walked(&purged, self, moved, order@, yielded, start, asked);
                Self::walked_carries(&purged, old(self), self, moved, order@, yielded, start, asked);
                self.settled_chains(&purged, old(self));
                Self::circulated_when_walked(old(self), self, moved, order@, yielded, start, asked);
            }
            moved
        }
    }

    /// Clears the focus, telling the listeners of the focus first.
    fn clear_focus(&mut self)
        requires
            old(self).wf(),
        ensures
            final(self).wf(),
            final(self).settled(old(self)),
            final(self).inners() == old(self).inners(),
            final(self)@ == (World { focused: WidgetRef::nothing(), ..old(self)@ }),
            final(self).instance().manual_tab_order == old(self).instance().manual_tab_order,
            final(self).instance().auto_tab_order == old(self).instance().auto_tab_order,
            final(self).instance().on_key_down == old(self).instance().on_key_down,
            final(self).instance().on_key_up == old(self).instance().on_key_up,
            final(self).instance().routing == old(self).instance().routing,
            old(self).instance().focused_component.same_watch(
                &final(self).instance().focused_component,
            ),
    {
        let instance = self.instance_mut();
        instance.focused_component.set(WidgetRef { slot: None });
        proof {
            self.frame_keeps_wf(old(self));
            assert(self@.nodes =~= old(self)@.nodes);
        }
    }

    /// Whether `after` is `before` once the focus was asked to move on along
    /// `order`, the order that counts, which has entries.
    pub open spec fn moved_along(before: &Self, after: &Self, moved: bool, order: Seq<WidgetRef>) -> bool {
        let holder = before@.focused;
        let held = before.census().reaches(holder);
        let yielded = if held {
            turned(
                before@,
                widget_of(holder),
                lose_turn(before@.nodes[widget_of(holder).id as int]),
            )
        } else {
            before@
        };
        let start = if held {
            walk_start(order, holder)
        } else {
            0
        };
        &&& after.settled(before)
        &&& after.instance().manual_tab_order == before.instance().manual_tab_order
        &&& after.instance().auto_tab_order == before.instance().auto_tab_order
        &&& after.instance().on_key_down == before.instance().on_key_down
        &&& after.instance().on_key_up == before.instance().on_key_up
        &&& after.instance().routing == before.instance().routing
        &&& before.instance().focused_component.same_watch(&after.instance().focused_component)
        &&& Self::walked_some(before, after, moved, order, yielded, start)
        &&& moved ==> order.contains(after@.focused) && after.census().reaches(after@.focused)
        &&& held && before.never_yields(widget_of(holder)) ==> !moved
    }

    /// Asks the holder to yield and walks `order`.
    fn move_along(&mut self, order: &Vec<WidgetRef>) -> (moved: bool)
        requires
            old(self).wf(),
            order@.len() > 0,
            forall|i: int| 0 <= i < order@.len() ==> old(self).census().reaches(#[trigger] order@[i]),
        ensures
            final(self).wf(),
            Self::moved_along(old(self), final(self), moved, order@),
    {
        let n = order.len();
        let current = self.instance_ref().focused_component.get_copy();
        let held = current.acquire(self.census_ref()).is_some();
        let free = self.ask_to_yield();
        let ghost yielded = *self;
        if !free {
            proof {
                assert(offered(yielded@, order@, walk_start(order@, current), 0) == yielded@);
                assert(Self::walked(
                    old(self),
                    self,
                    false,
                    order@,
                    yielded@,
                    walk_start(order@, current),
                    0,
                ));
            }
            return false;
        }
        let start = if held {
            Self::begin_after(order, &current)
        } else {
            0
        };
        let (accepted, asked) = self.walk(order, start);
        let ghost walked_to = *self;
        proof {
            walked_to.settled_chains(&yielded, old(self));
            Self::stepped_carries(
                &yielded,
                old(self),
                accepted,
                order@,
                yielded@,
                start as int,
                asked as nat,
            );
        }
        if accepted {
            let next: usize = if asked - 1 >= n - start {
                asked - 1 - (n - start)
            } else {
                start + (asked - 1)
            };
            self.hand_over(order[next]);
            proof {
                self.settled_chains(&walked_to, old(self));
                assert(next == seat(n as int, start as int, asked - 1));
                assert(order@.contains(order@[next as int]));
                assert(Self::walked(
                    old(self),
                    self,
                    true,
                    order@,
                    yielded@,
                    start as int,
                    asked as nat,
                ));
            }
            true
        } else {
            proof {
                assert(Self::walked(
                    old(self),
                    self,
                    false,
                    order@,
                    yielded@,
                    start as int,
                    asked as nat,
                ));
            }
            false
        }
    }

    /// What `after` and `outcome` are when a key event reached `before`.
    pub open spec fn keyed(before: &Self, after: &Self, signal: Signal, outcome: KeyOutcome) -> bool {
        let holder = before@.focused;
        let tab = signal matches Signal::KeyDown(event) && event.key == crate::input::Key::Tab;
        if !before.instance().routing {
            outcome is Unrouted && after@ == before@ && after.steady(before)
        } else if tab {
            outcome matches KeyOutcome::FocusMoved(moved) && Self::circulated(before, after, moved)
        } else if before.census().reaches(holder) {
            outcome matches KeyOutcome::Delivered(trace) && after.steady(before) && after@
                == dispatch(before@, widget_of(holder), signal).0 && trace@ == dispatch(
                before@,
                widget_of(holder),
                signal,
            ).1 && after.listeners_heard(before, trace@)
        } else {
            outcome is NoHolder && after@ == before@ && after.steady(before)
        }
    }

    /// A key went down. Once the keyboard is routed, Tab moves the focus on
    /// and every other key goes to the holder of the focus; then the listeners
    /// of the user interface itself hear of the key.
    pub fn key_down(&mut self, event: KeyEvent) -> (outcome: KeyOutcome)
        requires
            old(self).wf(),
        ensures
            final(self).wf(),
            Self::keyed(old(self), final(self), Signal::KeyDown(event), outcome),
            told_with(
                final(self).instance().on_key_down@,
                &final(self).inners()[final(self).placeholder().id as int],
                &event,
            ),
    {
        let outcome = if !self.instance_ref().routing {
            KeyOutcome::Unrouted
        } else if event.key.is_tab() {
            KeyOutcome::FocusMoved(self.circulate_focus())
        } else {
            self.to_holder(Signal::KeyDown(event))
        };
        let shown = self.widget(self.placeholder_widget());
        let _heard: Vec<()> = self.instance_ref().on_key_down.broadcast_with(shown, &event);
        outcome
    }

    /// A key went up. Once the keyboard is routed it goes to the holder of the
    /// focus; then the listeners of the user interface itself hear of the key.
    pub fn key_up(&mut self, event: KeyEvent) -> (outcome: KeyOutcome)
        requires
            old(self).wf(),
        ensures
            final(self).wf(),
            Self::keyed(old(self), final(self), Signal::KeyUp(event), outcome),
            told_with(
                final(self).instance().on_key_up@,
                &final(self).inners()[final(self).placeholder().id as int],
                &event,
            ),
    {
        let outcome = if !self.instance_ref().routing {
            KeyOutcome::Unrouted
        } else {
            self.to_holder(Signal::KeyUp(event))
        };
        let shown = self.widget(self.placeholder_widget());
        let _heard: Vec<()> = self.instance_ref().on_key_up.broadcast_with(shown, &event);
        outcome
    }

    /// Broadcasts `signal` on the holder of the focus, if there is one.
    fn to_holder(&mut self, signal: Signal) -> (outcome: KeyOutcome)
        requires
            old(self).wf(),
        ensures
            final(self).wf(),
            final(self).steady(old(self)),
            old(self).census().reaches(old(self)@.focused) ==> (outcome matches KeyOutcome::Delivered(
                trace,
            ) && final(self)@ == dispatch(old(self)@, widget_of(old(self)@.focused), signal).0
                && trace@ == dispatch(old(self)@, widget_of(old(self)@.focused), signal).1
                && final(self).listeners_heard(old(self), trace@)),
            !old(self).census().reaches(old(self)@.focused) ==> outcome is NoHolder && final(self)@
                == old(self)@,
    {
        let current = self.instance_ref().focused_component.get_copy();
        match current.acquire(self.census_ref()) {
            Some(holder) => KeyOutcome::Delivered(self.dispatch(holder, signal)),
            None => KeyOutcome::NoHolder,
        }
    }
}

} // verus!
