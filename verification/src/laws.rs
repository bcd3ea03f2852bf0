//! What holds of the toolkit whatever the tree and whatever the listeners.

use crate::batch::{concat, Batch};
use crate::caribou::Caribou;
use crate::event::answered;
use crate::handle::{Widget, WidgetRef};
use crate::model::{
    deliver, deliver_all, dispatch, emits, hover_after, inside, react, settle, Delivery, Kind,
    Signal, World,
};
use crate::widget::{Listeners, Watchers};
use crate::widgets::{Button, ButtonState, ButtonStyle, WidgetData};
use vstd::prelude::*;

verus! {

/// The signals that make a layout look at its hover set.
pub open spec fn hover_relevant(signal: Signal) -> bool {
    signal is MouseMove || signal is MouseLeave || signal is PrimaryDown || signal is PrimaryUp
}

/// Whether the hover set of `layout`, if it is a layout, names living widgets only.
pub open spec fn purged(world: World, layout: Widget) -> bool {
    world.nodes[layout.id as int].kind matches Kind::Layout { hovered, .. } ==> forall|i: int|
        0 <= i < hovered.len() ==> world.reaches(#[trigger] hovered[i])
}

/// A reaction leaves the tree as it is: nobody is made or destroyed, moved,
/// resized, switched or given away, and every widget keeps its flavor.
pub proof fn settle_keeps_tree(world: World, me: Widget, signal: Signal)
    requires
        world.has(me),
    ensures
        world.same_tree(settle(world, me, react(world, me, signal))),
{
    let after = settle(world, me, react(world, me, signal));
    assert forall|i: int| 0 <= i < world.nodes.len() implies {
        &&& (#[trigger] world.nodes[i]).alive == after.nodes[i].alive
        &&& world.nodes[i].position == after.nodes[i].position
        &&& world.nodes[i].size == after.nodes[i].size
        &&& world.nodes[i].enabled == after.nodes[i].enabled
        &&& world.nodes[i].children == after.nodes[i].children
        &&& crate::model::same_flavor(world.nodes[i].kind, after.nodes[i].kind)
    } by {}
}

/// Trees that are the same for `a` and `b`, and for `b` and `c`, are the same
/// for `a` and `c`.
pub proof fn same_tree_chains(a: World, b: World, c: World)
    requires
        a.same_tree(b),
        b.same_tree(c),
    ensures
        a.same_tree(c),
{
    assert forall|i: int| 0 <= i < a.nodes.len() implies {
        &&& (#[trigger] a.nodes[i]).alive == c.nodes[i].alive
        &&& a.nodes[i].position == c.nodes[i].position
        &&& a.nodes[i].size == c.nodes[i].size
        &&& a.nodes[i].enabled == c.nodes[i].enabled
        &&& a.nodes[i].children == c.nodes[i].children
        &&& crate::model::same_flavor(a.nodes[i].kind, c.nodes[i].kind)
    } by {
        assert(b.nodes[i].alive == a.nodes[i].alive);
    }
}

/// Delivering a signal leaves the tree as it is.
pub proof fn deliver_keeps_tree(world: World, d: Delivery, depth: nat)
    ensures
        world.same_tree(deliver(world, d, depth).0),
    decreases depth, 0nat,
{
    if depth == 0 || !world.has(d.target) {
    } else {
        let r = react(world, d.target, d.signal);
        let mid = settle(world, d.target, r);
        settle_keeps_tree(world, d.target, d.signal);
        deliver_all_keeps_tree(mid, r.plan, (depth - 1) as nat);
        same_tree_chains(world, mid, deliver_all(mid, r.plan, (depth - 1) as nat).0);
    }
}

/// Delivering signals one after the other leaves the tree as it is.
pub proof fn deliver_all_keeps_tree(world: World, plan: Seq<Delivery>, depth: nat)
    ensures
        world.same_tree(deliver_all(world, plan, depth).0),
    decreases depth, 1 + plan.len(),
{
    if plan.len() == 0 {
    } else {
        let first = deliver(world, plan[0], depth).0;
        deliver_keeps_tree(world, plan[0], depth);
        deliver_all_keeps_tree(first, plan.skip(1), depth);
        same_tree_chains(world, first, deliver_all(first, plan.skip(1), depth).0);
    }
}

/// In the same tree the same widgets exist and own the same.
pub proof fn same_tree_same_life(a: World, b: World)
    requires
        a.same_tree(b),
    ensures
        forall|w: Widget| a.has(w) == b.has(w),
        forall|r: WidgetRef| a.reaches(r) == b.reaches(r),
        a.wf() ==> b.wf(),
{
    assert forall|w: Widget| a.has(w) == b.has(w) by {
        if w.id < a.nodes.len() {
            assert(a.nodes[w.id as int].alive == b.nodes[w.id as int].alive);
        }
    }
    if a.wf() {
        assert forall|i: int, k: int|
            0 <= i < b.nodes.len() && b.nodes[i].alive && 0 <= k
                < b.nodes[i].children.len() implies b.has(#[trigger] b.nodes[i].children[k]) by {
            assert(a.nodes[i].alive == b.nodes[i].alive);
            assert(a.has(a.nodes[i].children[k]));
        }
    }
}

/// When a layout reacts to a signal that makes it look at its hover set, the
/// hover set it is left with names living widgets only.
pub proof fn reaction_purges(world: World, layout: Widget, signal: Signal)
    requires
        world.wf(),
        world.has(layout),
        world.nodes[layout.id as int].kind is Layout,
        hover_relevant(signal),
    ensures
        react(world, layout, signal).kind matches Kind::Layout { hovered, .. } && forall|i: int|
            0 <= i < hovered.len() ==> world.reaches(#[trigger] hovered[i]),
{
    let node = world.nodes[layout.id as int];
    let hovered = node.kind->Layout_hovered;
    let live = world.live(hovered);
    let alive = |r: WidgetRef| world.reaches(r);
    assert forall|i: int| 0 <= i < live.len() implies world.reaches(#[trigger] live[i]) by {
        hovered.lemma_filter_pred(alive, i);
    }
    match signal {
        Signal::MouseMove(p) => {
            let under = inside(world, node.children, p);
            let after = hover_after(world, node.children, p);
            let hit = |c: Widget| world.hits(c, p);
            assert forall|i: int| 0 <= i < after.len() implies world.reaches(
                #[trigger] after[i],
            ) by {
                assert(under.contains(under[i]));
                node.children.lemma_filter_contains_rev(hit, under[i]);
                let k = choose|k: int| 0 <= k < node.children.len() && node.children[k] == under[i];
                assert(world.has(node.children[k]));
            }
        },
        _ => {},
    }
}

/// A reaction of any widget leaves purged hover sets purged.
pub proof fn settle_keeps_purged(world: World, me: Widget, signal: Signal, layout: Widget)
    requires
        world.wf(),
        world.has(me),
        layout.id < world.nodes.len(),
        purged(world, layout),
    ensures
        purged(settle(world, me, react(world, me, signal)), layout),
{
    let r = react(world, me, signal);
    let after = settle(world, me, r);
    settle_keeps_tree(world, me, signal);
    same_tree_same_life(world, after);
    if me.id == layout.id {
        if world.nodes[me.id as int].kind is Layout {
            if hover_relevant(signal) {
                reaction_purges(world, me, signal);
            }
        }
    }
}

/// Delivering a signal leaves purged hover sets purged.
pub proof fn deliver_keeps_purged(world: World, d: Delivery, depth: nat, layout: Widget)
    requires
        world.wf(),
        layout.id < world.nodes.len(),
        purged(world, layout),
    ensures
        purged(deliver(world, d, depth).0, layout),
    decreases depth, 0nat,
{
    if depth == 0 || !world.has(d.target) {
    } else {
        let r = react(world, d.target, d.signal);
        let mid = settle(world, d.target, r);
        settle_keeps_purged(world, d.target, d.signal, layout);
        settle_keeps_tree(world, d.target, d.signal);
        same_tree_same_life(world, mid);
        deliver_all_keeps_purged(mid, r.plan, (depth - 1) as nat, layout);
    }
}

/// Delivering signals one after the other leaves purged hover sets purged.
pub proof fn deliver_all_keeps_purged(world: World, plan: Seq<Delivery>, depth: nat, layout: Widget)
    requires
        world.wf(),
        layout.id < world.nodes.len(),
        purged(world, layout),
    ensures
        purged(deliver_all(world, plan, depth).0, layout),
    decreases depth, 1 + plan.len(),
{
    if plan.len() == 0 {
    } else {
        let first = deliver(world, plan[0], depth).0;
        deliver_keeps_purged(world, plan[0], depth, layout);
        deliver_keeps_tree(world, plan[0], depth);
        same_tree_same_life(world, first);
        deliver_all_keeps_purged(first, plan.skip(1), depth, layout);
    }
}

/// After a layout received a signal that makes it look at its hover set, the
/// set names living widgets only: whatever was destroyed since the set was
/// written is gone from it.
pub proof fn hover_set_drops_the_dead(world: World, layout: Widget, signal: Signal)
    requires
        world.wf(),
        world.has(layout),
        world.nodes[layout.id as int].kind is Layout,
        hover_relevant(signal),
    ensures
        purged(dispatch(world, layout, signal).0, layout),
        dispatch(world, layout, signal).0.nodes[layout.id as int].kind is Layout,
{
    let depth = world.nodes.len();
    let r = react(world, layout, signal);
    let mid = settle(world, layout, r);
    reaction_purges(world, layout, signal);
    settle_keeps_tree(world, layout, signal);
    same_tree_same_life(world, mid);
    assert(purged(mid, layout));
    deliver_all_keeps_purged(mid, r.plan, (depth - 1) as nat, layout);
    let after = dispatch(world, layout, signal).0;
    deliver_keeps_tree(world, Delivery { target: layout, signal }, depth);
    assert(crate::model::same_flavor(
        world.nodes[layout.id as int].kind,
        after.nodes[layout.id as int].kind,
    ));
}

/// A button press or release on a layout that hovers over nothing reaches
/// the listeners of the layout and of nobody else, and changes nothing. A new
/// layout hovers over nothing until the pointer has moved over it.
pub proof fn press_without_hover_reaches_nobody(world: World, layout: Widget, signal: Signal)
    requires
        world.has(layout),
        world.nodes[layout.id as int].kind matches Kind::Layout { hovered, .. } && hovered.len()
            == 0,
        signal == Signal::PrimaryDown || signal == Signal::PrimaryUp,
    ensures
        dispatch(world, layout, signal).1 == seq![Delivery { target: layout, signal }],
        dispatch(world, layout, signal).0 == world,
{
    reveal(Seq::filter);
    let hovered = world.nodes[layout.id as int].kind->Layout_hovered;
    assert(hovered =~= Seq::<WidgetRef>::empty());
    let live = world.live(hovered);
    assert(live.len() == 0);
    assert(live =~= hovered);
    let r = react(world, layout, signal);
    assert(r.plan.len() == 0);
    let mid = settle(world, layout, r);
    assert(mid.nodes =~= world.nodes);
    assert(mid == world);
    let depth = world.nodes.len();
    assert(deliver_all(mid, r.plan, (depth - 1) as nat) == (mid, Seq::<Delivery>::empty()));
    assert(Seq::<Delivery>::empty() + emits(layout, signal, false) =~= seq![
        Delivery { target: layout, signal },
    ]);
}

/// What the listeners of a button hear of one click, a press followed by a
/// release: the press, the release, and between them the button's action
/// exactly once if the button is enabled and not at all if it is disabled.
pub proof fn click_fires_action_iff_enabled(world: World, button: Widget)
    requires
        world.has(button),
        world.nodes[button.id as int].kind is Button,
    ensures
        ({
            let (pressed, down) = dispatch(world, button, Signal::PrimaryDown);
            let (released, up) = dispatch(pressed, button, Signal::PrimaryUp);
            down + up == if world.nodes[button.id as int].enabled {
                seq![
                    Delivery { target: button, signal: Signal::PrimaryDown },
                    Delivery { target: button, signal: Signal::Action(0) },
                    Delivery { target: button, signal: Signal::PrimaryUp },
                ]
            } else {
                seq![
                    Delivery { target: button, signal: Signal::PrimaryDown },
                    Delivery { target: button, signal: Signal::PrimaryUp },
                ]
            }
        }),
{
    let depth = world.nodes.len();
    let r1 = react(world, button, Signal::PrimaryDown);
    let mid1 = settle(world, button, r1);
    assert(deliver_all(mid1, r1.plan, (depth - 1) as nat) == (mid1, Seq::<Delivery>::empty()));
    let (pressed, down) = dispatch(world, button, Signal::PrimaryDown);
    assert(pressed == mid1);
    assert(down =~= seq![Delivery { target: button, signal: Signal::PrimaryDown }]);
    assert(pressed.has(button));
    assert(pressed.nodes.len() == depth);
    let r2 = react(pressed, button, Signal::PrimaryUp);
    let mid2 = settle(pressed, button, r2);
    assert(deliver_all(mid2, r2.plan, (depth - 1) as nat) == (mid2, Seq::<Delivery>::empty()));
    let (released, up) = dispatch(pressed, button, Signal::PrimaryUp);
    assert(pressed.nodes[button.id as int].enabled == world.nodes[button.id as int].enabled);
    if world.nodes[button.id as int].enabled {
        assert(up =~= seq![
            Delivery { target: button, signal: Signal::Action(0) },
            Delivery { target: button, signal: Signal::PrimaryUp },
        ]);
        assert(down + up =~= seq![
            Delivery { target: button, signal: Signal::PrimaryDown },
            Delivery { target: button, signal: Signal::Action(0) },
            Delivery { target: button, signal: Signal::PrimaryUp },
        ]);
    } else {
        assert(up =~= seq![Delivery { target: button, signal: Signal::PrimaryUp }]);
        assert(down + up =~= seq![
            Delivery { target: button, signal: Signal::PrimaryDown },
            Delivery { target: button, signal: Signal::PrimaryUp },
        ]);
    }
}

/// A disabled button is drawn in its disabled style, whatever its state: the
/// batch it draws is the consolidated answers of the listeners of that style
/// and of no other.
pub proof fn disabled_button_draws_disabled_style<P: Watchers, L: Listeners<P>>(
    ui: &Caribou<P, L>,
    button: Widget,
    depth: nat,
    own: Seq<Batch>,
)
    requires
        depth > 0,
        ui.inners()[button.id as int].data@ matches Some(WidgetData::Button(_)),
        !ui.inners()[button.id as int].enabled@,
        ui.composed(button, depth, own),
    ensures
        own.len() == 1,
        exists|styled: Seq<Batch>|
            #![trigger concat(styled)]
            answered(
                ui.listeners()[button.id as int].styles.draw_disabled@,
                &ui.inners()[button.id as int],
                styled,
            ) && own[0]@ == concat(styled),
        forall|state: ButtonState| Button::style_of(false, state) == ButtonStyle::Disabled,
{
}

} // verus!
