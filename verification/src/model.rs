//! The toolkit as a mathematical value, and what each signal does to it.
//!
//! A `World` holds of every widget what the stock widgets read and change.
//! `react` says how one widget answers one signal: its new state, and the
//! signals it passes on. `deliver` follows those signals through the tree and
//! lists, in order, every broadcast that reaches the listeners of a widget.

use crate::handle::{Widget, WidgetRef};
use crate::input::KeyEvent;
use crate::math::{IntPair, Region};
use crate::widgets::ButtonState;
use vstd::prelude::*;

verus! {

/// What can be broadcast to a widget and is answered by no value.
#[derive(Debug, Clone, Copy, PartialEq, Eq, Structural)]
pub enum Signal {
    /// The pointer moved to this position, in the coordinates of the receiver.
    MouseMove(IntPair),
    MouseEnter,
    MouseLeave,
    PrimaryDown,
    PrimaryUp,
    SecondaryDown,
    SecondaryUp,
    TertiaryDown,
    TertiaryUp,
    KeyDown(KeyEvent),
    KeyUp(KeyEvent),
    Update,
    /// The generic action of a widget, with its payload.
    Action(u64),
}

/// One broadcast: a signal and the widget whose listeners receive it.
#[derive(Debug, Clone, Copy, PartialEq, Eq, Structural)]
pub struct Delivery {
    pub target: Widget,
    pub signal: Signal,
}

/// The state of a widget's flavor.
pub enum Kind {
    Plain,
    Layout { hovered: Seq<WidgetRef>, pointer: IntPair },
    Button { state: ButtonState, focused: bool },
    TextField { enabled: bool, focused: bool },
}

/// One widget.
pub struct Node {
    pub alive: bool,
    pub position: IntPair,
    pub size: IntPair,
    pub enabled: bool,
    pub children: Seq<Widget>,
    pub kind: Kind,
}

/// All widgets ever made, by number, with the holder of the focus and the
/// pending request to draw again.
pub struct World {
    pub nodes: Seq<Node>,
    pub focused: WidgetRef,
    pub redraw: bool,
}

impl World {
    /// Whether `widget` was made and still exists.
    pub open spec fn has(self, widget: Widget) -> bool {
        widget.id < self.nodes.len() && self.nodes[widget.id as int].alive
    }

    /// Whether `r` observes a widget that still exists.
    pub open spec fn reaches(self, r: WidgetRef) -> bool {
        r.slot matches Some(id) && self.has(Widget { id })
    }

    /// The entries of `refs` whose widgets still exist, in order.
    pub open spec fn live(self, refs: Seq<WidgetRef>) -> Seq<WidgetRef> {
        refs.filter(|r: WidgetRef| self.reaches(r))
    }

    /// The rectangle that `widget` covers in its parent.
    pub open spec fn region(self, widget: Widget) -> Region {
        Region {
            origin: self.nodes[widget.id as int].position,
            size: self.nodes[widget.id as int].size,
        }
    }

    /// Whether the point `p`, in the coordinates of the parent, lies on `widget`.
    pub open spec fn hits(self, widget: Widget, p: IntPair) -> bool {
        self.region(widget).covers(p.x as int, p.y as int)
    }

    /// Every widget that a living widget owns exists.
    pub open spec fn wf(self) -> bool {
        forall|i: int, k: int|
            0 <= i < self.nodes.len() && self.nodes[i].alive && 0 <= k
                < self.nodes[i].children.len() ==> self.has(#[trigger] self.nodes[i].children[k])
    }

    /// The world with the flavor state of `widget` replaced.
    pub open spec fn with_kind(self, widget: Widget, kind: Kind) -> World {
        World {
            nodes: self.nodes.update(
                widget.id as int,
                Node { kind, ..self.nodes[widget.id as int] },
            ),
            ..self
        }
    }

    /// Whether `other` has the same widgets, each alive as here, at the same
    /// place, of the same size, as enabled, with the same children and of the
    /// same flavor: only the states of the flavors, the focus and the request to
    /// draw may differ.
    pub open spec fn same_tree(self, other: World) -> bool {
        &&& self.nodes.len() == other.nodes.len()
        &&& forall|i: int|
            0 <= i < self.nodes.len() ==> {
                &&& (#[trigger] self.nodes[i]).alive == other.nodes[i].alive
                &&& self.nodes[i].position == other.nodes[i].position
                &&& self.nodes[i].size == other.nodes[i].size
                &&& self.nodes[i].enabled == other.nodes[i].enabled
                &&& self.nodes[i].children == other.nodes[i].children
                &&& same_flavor(self.nodes[i].kind, other.nodes[i].kind)
            }
    }
}

/// Whether two states belong to the same flavor of widget.
pub open spec fn same_flavor(a: Kind, b: Kind) -> bool {
    match a {
        Kind::Plain => b is Plain,
        Kind::Layout { .. } => b is Layout,
        Kind::Button { .. } => b is Button,
        Kind::TextField { enabled, .. } => b is TextField && b->TextField_enabled == enabled,
    }
}

/// The point `p` of the parent in the coordinates of a child at `origin`.
pub open spec fn local(p: IntPair, origin: IntPair) -> IntPair {
    IntPair { x: (p.x - origin.x) as i32, y: (p.y - origin.y) as i32 }
}

/// The children under the pointer at `p`, in child order.
pub open spec fn inside(world: World, children: Seq<Widget>, p: IntPair) -> Seq<Widget> {
    children.filter(|c: Widget| world.hits(c, p))
}

/// What a layout sends to a child under the pointer: the news that the pointer
/// entered, if the child was not hovered before, and else the pointer's position
/// in the child's own coordinates.
pub open spec fn approach(world: World, hovered: Seq<WidgetRef>, p: IntPair, child: Widget) -> Delivery {
    if hovered.contains(child.observer()) {
        Delivery {
            target: child,
            signal: Signal::MouseMove(local(p, world.nodes[child.id as int].position)),
        }
    } else {
        Delivery { target: child, signal: Signal::MouseEnter }
    }
}

/// The widget that `r` observes.
pub open spec fn widget_of(r: WidgetRef) -> Widget {
    Widget { id: r.slot->0 }
}

/// `signal` for each of `refs`, in order.
pub open spec fn to_each(refs: Seq<WidgetRef>, signal: Signal) -> Seq<Delivery> {
    refs.map_values(|r: WidgetRef| Delivery { target: widget_of(r), signal })
}

/// The hover set of a layout after the pointer moved to `p`: the children
/// under the pointer, in child order.
pub open spec fn hover_after(world: World, children: Seq<Widget>, p: IntPair) -> Seq<WidgetRef> {
    inside(world, children, p).map_values(|c: Widget| c.observer())
}

/// What a layout sends when the pointer moves to `p`, `hovered` being the
/// living part of its hover set: first, in child order, one delivery to each
/// child under the pointer; then, in the order of the hover set, the news that
/// the pointer left to each entry that is under the pointer no longer.
pub open spec fn hover_plan(
    world: World,
    children: Seq<Widget>,
    hovered: Seq<WidgetRef>,
    p: IntPair,
) -> Seq<Delivery> {
    let after = hover_after(world, children, p);
    inside(world, children, p).map_values(|c: Widget| approach(world, hovered, p, c)) + to_each(
        hovered.filter(|r: WidgetRef| !after.contains(r)),
        Signal::MouseLeave,
    )
}

/// How one widget answers one signal.
pub struct Reaction {
    /// The state of the widget's flavor afterwards.
    pub kind: Kind,
    /// The signals it passes on, in order.
    pub plan: Seq<Delivery>,
    /// The new holder of the focus, if it names one.
    pub focus: Option<WidgetRef>,
    /// Whether it asks to be drawn again.
    pub redraw: bool,
    /// Whether it broadcasts its generic action.
    pub action: bool,
}

/// The reaction that changes nothing.
pub open spec fn idle(kind: Kind) -> Reaction {
    Reaction { kind, plan: Seq::empty(), focus: None, redraw: false, action: false }
}

pub open spec fn react_layout(
    world: World,
    me: Widget,
    hovered: Seq<WidgetRef>,
    pointer: IntPair,
    signal: Signal,
) -> Reaction {
    let children = world.nodes[me.id as int].children;
    let live = world.live(hovered);
    match signal {
        Signal::MouseMove(p) => Reaction {
            kind: Kind::Layout { hovered: hover_after(world, children, p), pointer: p },
            plan: hover_plan(world, children, live, p),
            focus: None,
            redraw: false,
            action: false,
        },
        Signal::MouseLeave => Reaction {
            kind: Kind::Layout { hovered: Seq::empty(), pointer },
            plan: to_each(live, Signal::MouseLeave),
            focus: None,
            redraw: false,
            action: false,
        },
        Signal::PrimaryDown => Reaction {
            kind: Kind::Layout { hovered: live, pointer },
            plan: to_each(live, Signal::PrimaryDown),
            focus: None,
            redraw: false,
            action: false,
        },
        Signal::PrimaryUp => Reaction {
            kind: Kind::Layout { hovered: live, pointer },
            plan: to_each(live, Signal::PrimaryUp),
            focus: None,
            redraw: false,
            action: false,
        },
        _ => idle(Kind::Layout { hovered, pointer }),
    }
}

pub open spec fn react_button(
    me: Widget,
    enabled: bool,
    state: ButtonState,
    focused: bool,
    signal: Signal,
) -> Reaction {
    let keep = idle(Kind::Button { state, focused });
    match signal {
        Signal::MouseEnter => Reaction {
            kind: Kind::Button { state: ButtonState::Hover, focused },
            redraw: true,
            ..keep
        },
        Signal::MouseLeave => Reaction {
            kind: Kind::Button { state: ButtonState::Normal, focused },
            redraw: true,
            ..keep
        },
        Signal::PrimaryDown => Reaction {
            kind: Kind::Button { state: ButtonState::Pressed, focused },
            redraw: true,
            focus: Some(me.observer()),
            ..keep
        },
        Signal::PrimaryUp => Reaction {
            kind: Kind::Button { state: ButtonState::Hover, focused },
            redraw: true,
            action: enabled,
            ..keep
        },
        Signal::KeyDown(event) => if event.key.activating() {
            Reaction { kind: Kind::Button { state: ButtonState::Pressed, focused }, redraw: true, ..keep }
        } else {
            keep
        },
        Signal::KeyUp(event) => if event.key.activating() {
            Reaction {
                kind: Kind::Button { state: ButtonState::Normal, focused },
                redraw: true,
                action: true,
                ..keep
            }
        } else {
            keep
        },
        _ => keep,
    }
}

pub open spec fn react_text_field(me: Widget, enabled: bool, focused: bool, signal: Signal) -> Reaction {
    let keep = idle(Kind::TextField { enabled, focused });
    match signal {
        Signal::PrimaryDown => if enabled {
            Reaction { focus: Some(me.observer()), ..keep }
        } else {
            keep
        },
        _ => keep,
    }
}

/// How the widget `me` answers `signal` in `world`.
pub open spec fn react(world: World, me: Widget, signal: Signal) -> Reaction {
    let node = world.nodes[me.id as int];
    match node.kind {
        Kind::Plain => idle(Kind::Plain),
        Kind::Layout { hovered, pointer } => react_layout(world, me, hovered, pointer, signal),
        Kind::Button { state, focused } => react_button(me, node.enabled, state, focused, signal),
        Kind::TextField { enabled, focused } => react_text_field(me, enabled, focused, signal),
    }
}

/// How a widget takes the offer or the loss of the focus: the state of its
/// flavor afterwards, whether it asks to be drawn again, and what it answers
/// itself, ahead of its listeners.
pub struct FocusTurn {
    pub kind: Kind,
    pub redraw: bool,
    pub answer: Seq<bool>,
}

/// A widget that is offered the focus. A button accepts if it is enabled, a
/// text field if its own switch says so; both then mark themselves focused and
/// ask to be drawn again. Other widgets say nothing themselves.
pub open spec fn gain_turn(node: Node) -> FocusTurn {
    match node.kind {
        Kind::Button { state, focused } => if node.enabled {
            FocusTurn { kind: Kind::Button { state, focused: true }, redraw: true, answer: seq![true] }
        } else {
            FocusTurn { kind: node.kind, redraw: false, answer: seq![false] }
        },
        Kind::TextField { enabled, focused } => if enabled {
            FocusTurn {
                kind: Kind::TextField { enabled, focused: true },
                redraw: true,
                answer: seq![true],
            }
        } else {
            FocusTurn { kind: node.kind, redraw: false, answer: seq![false] }
        },
        _ => FocusTurn { kind: node.kind, redraw: false, answer: Seq::empty() },
    }
}

/// A widget that is asked to give up the focus. Buttons and text fields always
/// consent, drop their focus mark and ask to be drawn again.
pub open spec fn lose_turn(node: Node) -> FocusTurn {
    match node.kind {
        Kind::Button { state, focused } => FocusTurn {
            kind: Kind::Button { state, focused: false },
            redraw: true,
            answer: seq![true],
        },
        Kind::TextField { enabled, focused } => FocusTurn {
            kind: Kind::TextField { enabled, focused: false },
            redraw: true,
            answer: seq![true],
        },
        _ => FocusTurn { kind: node.kind, redraw: false, answer: Seq::empty() },
    }
}

/// The world after `widget` took the turn `turn`.
pub open spec fn turned(world: World, widget: Widget, turn: FocusTurn) -> World {
    World {
        nodes: world.nodes.update(
            widget.id as int,
            Node { kind: turn.kind, ..world.nodes[widget.id as int] },
        ),
        redraw: world.redraw || turn.redraw,
        ..world
    }
}

/// The tab order that counts: the manual one while it has entries, else the
/// automatic one.
pub open spec fn tab_order(manual: Seq<WidgetRef>, auto: Seq<WidgetRef>) -> Seq<WidgetRef> {
    if manual.len() > 0 {
        manual
    } else {
        auto
    }
}

/// Where the walk through `order` begins: one past the first place of
/// `current`, around the end; at the beginning where `current` has no place.
pub open spec fn walk_start(order: Seq<WidgetRef>, current: WidgetRef) -> int {
    if order.contains(current) && first_place(order, current) + 1 < order.len() {
        first_place(order, current) + 1
    } else {
        0
    }
}

/// The place of the entry that the walk comes to in its step number `step`,
/// counted from 0, when it began at `start` in an order of `n` entries.
pub open spec fn seat(n: int, start: int, step: int) -> int {
    if start + step >= n {
        start + step - n
    } else {
        start + step
    }
}

/// The world after the walk has offered the focus to the first `asked`
/// entries on its way.
pub open spec fn offered(world: World, order: Seq<WidgetRef>, start: int, asked: nat) -> World
    decreases asked,
{
    if asked == 0 {
        world
    } else {
        let before = offered(world, order, start, (asked - 1) as nat);
        let candidate = widget_of(order[seat(order.len() as int, start, asked - 1)]);
        turned(before, candidate, gain_turn(before.nodes[candidate.id as int]))
    }
}

/// The first place of `r` in `order`, or the length of `order` if it has none.
pub open spec fn first_place(order: Seq<WidgetRef>, r: WidgetRef) -> int
    decreases order.len(),
{
    if order.len() == 0 {
        0
    } else if order[0] == r {
        0
    } else {
        1 + first_place(order.skip(1), r)
    }
}

/// The payload of the action that a stock button broadcasts.
pub open spec fn button_action() -> u64 {
    0
}

/// The broadcasts that reach the listeners of `me` itself when it receives
/// `signal`: its generic action first, where it fires, then the signal.
pub open spec fn emits(me: Widget, signal: Signal, action: bool) -> Seq<Delivery> {
    if action {
        seq![
            Delivery { target: me, signal: Signal::Action(button_action()) },
            Delivery { target: me, signal },
        ]
    } else {
        seq![Delivery { target: me, signal }]
    }
}

/// The world after `me` has taken up its reaction `r`, before the signals it
/// passes on have been delivered.
pub open spec fn settle(world: World, me: Widget, r: Reaction) -> World {
    World {
        nodes: world.nodes.update(me.id as int, Node { kind: r.kind, ..world.nodes[me.id as int] }),
        focused: match r.focus {
            Some(holder) => holder,
            None => world.focused,
        },
        redraw: world.redraw || r.redraw,
    }
}

/// The world after the delivery `d`, and the broadcasts that reached listeners,
/// in order. A widget first reacts itself, then what it passes on is delivered,
/// and only then its own listeners hear of the signal. `depth` bounds how far
/// below `d.target` signals are followed; a delivery to a widget that does not
/// exist does nothing.
pub open spec fn deliver(world: World, d: Delivery, depth: nat) -> (World, Seq<Delivery>)
    decreases depth, 0nat,
{
    if depth == 0 || !world.has(d.target) {
        (world, Seq::empty())
    } else {
        let r = react(world, d.target, d.signal);
        let (after, below) = deliver_all(
            settle(world, d.target, r),
            r.plan,
            (depth - 1) as nat,
        );
        (after, below + emits(d.target, d.signal, r.action))
    }
}

/// The deliveries of `plan`, one after the other.
pub open spec fn deliver_all(world: World, plan: Seq<Delivery>, depth: nat) -> (World, Seq<Delivery>)
    decreases depth, 1 + plan.len(),
{
    if plan.len() == 0 {
        (world, Seq::empty())
    } else {
        let (first, heard) = deliver(world, plan[0], depth);
        let (rest, more) = deliver_all(first, plan.skip(1), depth);
        (rest, heard + more)
    }
}

/// The world after `signal` was broadcast on `target`, followed as deep as the
/// tree can be, and the broadcasts that reached listeners.
pub open spec fn dispatch(world: World, target: Widget, signal: Signal) -> (World, Seq<Delivery>) {
    deliver(world, Delivery { target, signal }, world.nodes.len())
}

} // verus!
