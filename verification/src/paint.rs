//! Drawing: every widget yields batches, a layout composes those of its
//! children, each moved to the child's place and clipped to the child's extent.

use crate::batch::{concat, Batch, BatchConsolidation, BatchOp, Transform};
use crate::caribou::Caribou;
use crate::event::{answered, Event};
use crate::handle::Widget;
use crate::model::World;
use crate::widget::{Listeners, Watchers, WidgetEvents};
use crate::widgets::{Button, ButtonStyle, WidgetData};
use vstd::prelude::*;

verus! {

/// The batches that `child` drew, each as one operation of its parent: moved
/// to the child's place and clipped to the child's extent.
pub open spec fn wrapped(world: World, child: Widget, batches: Seq<Batch>) -> Seq<BatchOp> {
    batches.map_values(
        |batch: Batch|
            BatchOp::Batch {
                transform: Transform::placing(
                    world.nodes[child.id as int].position,
                    world.nodes[child.id as int].size,
                ),
                batch,
            },
    )
}

/// What a layout draws when its `children` drew `parts`, child by child: the
/// wrapped batches of the first child, then those of the second, and so on, so
/// that an earlier child lies below a later one.
pub open spec fn framed(world: World, children: Seq<Widget>, parts: Seq<Seq<Batch>>) -> Seq<BatchOp>
    decreases children.len(),
{
    if children.len() == 0 || parts.len() != children.len() {
        Seq::empty()
    } else {
        framed(world, children.drop_last(), parts.drop_last()) + wrapped(
            world,
            children.last(),
            parts.last(),
        )
    }
}

/// The event of the style `style` among `events`.
pub open spec fn style_event<P: Watchers, L: Listeners<P>>(
    events: WidgetEvents<P, L>,
    style: ButtonStyle,
) -> Event<L::Draw> {
    match style {
        ButtonStyle::Normal => events.styles.draw_normal,
        ButtonStyle::Hover => events.styles.draw_hover,
        ButtonStyle::Pressed => events.styles.draw_pressed,
        ButtonStyle::Disabled => events.styles.draw_disabled,
    }
}

impl<P: Watchers, L: Listeners<P>> Caribou<P, L> {
    /// Whether `out` can be what the draw event of `target` yields, with the
    /// tree followed for `depth` levels: first what the widget draws as its
    /// flavor says, then one batch from each of its draw listeners, in the
    /// order of their subscription.
    pub open spec fn painted(&self, target: Widget, depth: nat, out: Seq<Batch>) -> bool
        decreases depth, 1nat,
    {
        if depth == 0 || !self.holds(target) || target.id >= self.inners().len() {
            out.len() == 0
        } else {
            exists|own: Seq<Batch>, heard: Seq<Batch>|
                #![trigger own + heard]
                out == own + heard && answered(
                    self.listeners()[target.id as int].on_draw@,
                    &self.inners()[target.id as int],
                    heard,
                ) && self.composed(target, depth, own)
        }
    }

    /// Whether `own` can be what `target` draws as its flavor says. A layout
    /// draws one batch that frames what its children yield. A button draws
    /// one batch, the consolidated answers of the listeners of its style; a
    /// text field likewise, in its focused or its unfocused style. A widget
    /// without flavor draws nothing.
    pub open spec fn composed(&self, target: Widget, depth: nat, own: Seq<Batch>) -> bool
        decreases depth, 0nat,
    {
        let inner = self.inners()[target.id as int];
        let events = self.listeners()[target.id as int];
        let children = self.linkage()[target.id as int].children();
        if depth == 0 {
            own.len() == 0
        } else {
            match inner.data@ {
                None => own.len() == 0,
                Some(WidgetData::Layout(_)) => own.len() == 1 && exists|parts: Seq<Seq<Batch>>|
                    #![trigger framed(self@, children, parts)]
                    parts.len() == children.len() && (forall|i: int|
                        0 <= i < children.len() ==> self.painted(
                            children[i],
                            (depth - 1) as nat,
                            #[trigger] parts[i],
                        )) && own[0]@ == framed(self@, children, parts),
                Some(WidgetData::Button(button)) => own.len() == 1 && exists|styled: Seq<Batch>|
                    #![trigger concat(styled)]
                    answered(
                        style_event(events, Button::style_of(inner.enabled@, button.state))@,
                        &inner,
                        styled,
                    ) && own[0]@ == concat(styled),
                Some(WidgetData::TextField(field)) => own.len() == 1 && exists|styled: Seq<Batch>|
                    #![trigger concat(styled)]
                    answered(
                        if field.focused {
                            events.styles.draw_focused@
                        } else {
                            events.styles.draw_unfocused@
                        },
                        &inner,
                        styled,
                    ) && own[0]@ == concat(styled),
            }
        }
    }

    /// Broadcasts the draw event of `target` and returns what it yields.
    pub fn draw(&self, target: Widget) -> (batches: Vec<Batch>)
        requires
            self.wf(),
        ensures
            self.painted(target, self.inners().len(), batches@),
    {
        self.paint(target, self.widget_count())
    }

    fn paint(&self, target: Widget, depth: usize) -> (batches: Vec<Batch>)
        requires
            self.wf(),
        ensures
            self.painted(target, depth as nat, batches@),
        decreases depth,
    {
        if depth == 0 || !self.is_alive(&target) {
            return Vec::new();
        }
        proof {
            self.holds_in_range(target);
            self.owned_exist(target);
        }
        let inner = self.widget(target);
        let events = self.events(target);
        let mut out: Vec<Batch> = Vec::new();
        match inner.data.get() {
            None => {},
            Some(WidgetData::Layout(_)) => {
                let children = self.links(target).get_children();
                let ghost kids = children@;
                let ghost mut parts: Seq<Seq<Batch>> = Seq::empty();
                let mut batch = Batch::new();
                let mut i: usize = 0;
                while i < children.len()
                    invariant
                        i <= kids.len(),
                        kids == children@,
                        self.wf(),
                        depth > 0,
                        forall|k: int| 0 <= k < kids.len() ==> self.holds(#[trigger] kids[k]),
                        parts.len() == i,
                        forall|k: int|
                            0 <= k < i ==> self.painted(
                                kids[k],
                                (depth - 1) as nat,
                                #[trigger] parts[k],
                            ),
                        batch@ == framed(self@, kids.take(i as int), parts),
                    decreases kids.len() - i,
                {
                    let child = children[i];
                    proof {
                        assert(self.holds(kids[i as int]));
                        self.holds_in_range(child);
                    }
                    let place = self.widget(child);
                    let transform = Transform::place(
                        place.position.get_copy(),
                        place.size.get_copy(),
                    );
                    let mut drawn = self.paint(child, depth - 1);
                    let ghost given = drawn@;
                    let ghost below = batch@;
                    let ghost wrap = |b: Batch| (BatchOp::Batch { transform, batch: b });
                    let mut j: usize = 0;
                    let total = drawn.len();
                    while j < total
                        invariant
                            j <= total,
                            total == given.len(),
                            drawn@ == given.skip(j as int),
                            wrap == |b: Batch| (BatchOp::Batch { transform, batch: b }),
                            batch@ == below + given.take(j as int).map_values(wrap),
                        decreases total - j,
                    {
                        let entry = drawn.remove(0);
                        proof {
                            assert(entry == given[j as int]);
                            assert(drawn@ =~= given.skip(j as int + 1));
                            assert(given.take(j as int).push(entry) =~= given.take(j as int + 1));
                            assert(given.take(j as int).push(entry).map_values(wrap)
                                =~= given.take(j as int).map_values(wrap).push(wrap(entry)));
                        }
                        batch.add_op(BatchOp::Batch { transform, batch: entry });
                        proof {
                            assert(batch@ =~= below + given.take(j as int + 1).map_values(wrap));
                        }
                        j += 1;
                    }
                    proof {
                        assert(given.take(total as int) =~= given);
                        assert(given.map_values(wrap) =~= wrapped(self@, child, given));
                        let grown = parts.push(given);
                        assert(kids.take(i as int + 1).drop_last() =~= kids.take(i as int));
                        assert(grown.drop_last() =~= parts);
                        assert(kids.take(i as int + 1).last() == child);
                        assert(batch@ == framed(self@, kids.take(i as int + 1), grown));
                        assert forall|k: int| 0 <= k < i + 1 implies self.painted(
                            kids[k],
                            (depth - 1) as nat,
                            #[trigger] grown[k],
                        ) by {
                            if k < i {
                                assert(grown[k] == parts[k]);
                            }
                        }
                        parts = grown;
                    }
                    i += 1;
                }
                proof {
                    assert(kids.take(kids.len() as int) =~= kids);
                }
                out.push(batch);
                proof {
                    assert(out@[0]@ == framed(self@, kids, parts));
                    assert(self.composed(target, depth as nat, out@));
                }
            },
            Some(WidgetData::Button(button)) => {
                let style = Button::style_for(inner.enabled.get_copy(), button.state);
                let styled = match style {
                    ButtonStyle::Normal => events.styles.draw_normal.broadcast(inner),
                    ButtonStyle::Hover => events.styles.draw_hover.broadcast(inner),
                    ButtonStyle::Pressed => events.styles.draw_pressed.broadcast(inner),
                    ButtonStyle::Disabled => events.styles.draw_disabled.broadcast(inner),
                };
                let ghost answers = styled@;
                let batch = styled.consolidate();
                out.push(batch);
                proof {
                    assert(out@[0]@ == concat(answers));
                    assert(self.composed(target, depth as nat, out@));
                }
            },
            Some(WidgetData::TextField(field)) => {
                let styled = if field.focused {
                    events.styles.draw_focused.broadcast(inner)
                } else {
                    events.styles.draw_unfocused.broadcast(inner)
                };
                let ghost answers = styled@;
                let batch = styled.consolidate();
                out.push(batch);
                proof {
                    assert(out@[0]@ == concat(answers));
                    assert(self.composed(target, depth as nat, out@));
                }
            },
        }
        let ghost own = out@;
        proof {
            assert(self.composed(target, depth as nat, own));
        }
        let mut heard = events.on_draw.broadcast(inner);
        let ghost said = heard@;
        out.append(&mut heard);
        proof {
            assert(out@ == own + said);
        }
        out
    }
}

} // verus!
