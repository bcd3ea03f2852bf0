//! The toolkit: every widget of one user interface, the tree they form, the
//! holder of the focus and the tab order.

use crate::event::Event;
use crate::handle::{Census, Widget, WidgetAcquire, WidgetRef, WidgetRefVec, WidgetVec};
use crate::math::IntPair;
use crate::model::{Kind, Node, World};
use crate::property::{informed, Property};
use crate::widget::{Links, Listeners, Watchers, WidgetEvents, WidgetInner};
use crate::widgets::{node_of, Layout};
use vstd::prelude::*;

verus! {

/// What belongs to the user interface as a whole: the tab orders, the holder of
/// the focus and the keyboard events that the platform broadcasts.
pub struct Instance<P: Watchers, L: Listeners<P>> {
    /// The tab order that the application sets. While it has entries it is the
    /// order that counts.
    pub manual_tab_order: Vec<WidgetRef>,
    /// The tab order that grows as widgets register themselves.
    pub auto_tab_order: Vec<WidgetRef>,
    pub focused_component: Property<WidgetRef, P::OnFocus>,
    pub on_key_down: Event<L::Keys>,
    pub on_key_up: Event<L::Keys>,
    /// Whether the keyboard is routed: Tab moves the focus, every other key
    /// goes to the holder of the focus.
    pub routing: bool,
}

/// One user interface.
pub struct Caribou<P: Watchers, L: Listeners<P>> {
    census: Census,
    nodes: Vec<WidgetInner<P>>,
    links: Vec<Links<P>>,
    events: Vec<WidgetEvents<P, L>>,
    root: Widget,
    placeholder: Widget,
    instance: Instance<P, L>,
    redraw: bool,
}

impl<P: Watchers, L: Listeners<P>> View for Caribou<P, L> {
    type V = World;

    open spec fn view(&self) -> World {
        World {
            nodes: Seq::new(
                self.inners().len(),
                |i: int| node_of(self.inners()[i], self.linkage()[i], self.census().lives(i)),
            ),
            focused: self.instance().focused_component@,
            redraw: self.redraw_pending(),
        }
    }
}

impl<P: Watchers, L: Listeners<P>> Caribou<P, L> {
    pub closed spec fn census(&self) -> Census {
        self.census
    }

    /// Every widget ever made, by number.
    pub closed spec fn inners(&self) -> Seq<WidgetInner<P>> {
        self.nodes@
    }

    /// What each widget owns below itself, by number.
    pub closed spec fn linkage(&self) -> Seq<Links<P>> {
        self.links@
    }

    /// The events of each widget, by number.
    pub closed spec fn listeners(&self) -> Seq<WidgetEvents<P, L>> {
        self.events@
    }

    pub closed spec fn root(&self) -> Widget {
        self.root
    }

    /// The widget that stands for the user interface itself where its own
    /// events are broadcast.
    pub closed spec fn placeholder(&self) -> Widget {
        self.placeholder
    }

    pub closed spec fn instance(&self) -> Instance<P, L> {
        self.instance
    }

    /// Whether a request to draw again waits to be taken.
    pub closed spec fn redraw_pending(&self) -> bool {
        self.redraw
    }

    /// The widgets are numbered without gaps, the root and the placeholder
    /// exist, and whatever a living widget owns exists.
    pub open spec fn wf(&self) -> bool {
        &&& self.census().size() == self.inners().len()
        &&& self.linkage().len() == self.inners().len()
        &&& self.listeners().len() == self.inners().len()
        &&& self.census().holds(self.root())
        &&& self.census().holds(self.placeholder())
        &&& self@.wf()
        &&& forall|i: int|
            0 <= i < self.inners().len() && self.census().lives(i) && (
            #[trigger] self.linkage()[i]).content() is Some ==> self.census().holds(
                self.linkage()[i].content()->0,
            )
    }

    /// Whether `other` differs from `self` at most in what the widgets are and
    /// hold: the same widgets exist, in the same tree, with the same listeners
    /// of their events.
    pub open spec fn same_frame(&self, other: &Self) -> bool {
        &&& self.census() == other.census()
        &&& self.linkage() == other.linkage()
        &&& self.listeners() == other.listeners()
        &&& self.root() == other.root()
        &&& self.placeholder() == other.placeholder()
        &&& self.inners().len() == other.inners().len()
    }

    /// Whether `self` is `before` after signals were delivered: the same
    /// widgets exist in the same tree with the same listeners, and every widget
    /// is what it was but for the state of its flavor; of the user interface as
    /// a whole, only the holder of the focus and the request to draw may differ.
    pub open spec fn steady(&self, before: &Self) -> bool {
        &&& self.same_frame(before)
        &&& forall|i: int|
            0 <= i < self.inners().len() ==> (#[trigger] before.inners()[i]).same_but_state(
                &self.inners()[i],
            )
        &&& self.instance().manual_tab_order == before.instance().manual_tab_order
        &&& self.instance().auto_tab_order == before.instance().auto_tab_order
        &&& self.instance().on_key_down == before.instance().on_key_down
        &&& self.instance().on_key_up == before.instance().on_key_up
        &&& self.instance().routing == before.instance().routing
        &&& before.instance().focused_component.same_watch(&self.instance().focused_component)
    }

    /// Whether `self` is `before` with, at most, other states of the widgets'
    /// flavors: the same widgets exist in the same tree with the same listeners.
    pub open spec fn settled(&self, before: &Self) -> bool {
        &&& self.same_frame(before)
        &&& forall|i: int|
            0 <= i < self.inners().len() ==> (#[trigger] before.inners()[i]).same_but_state(
                &self.inners()[i],
            )
    }

    /// How many widgets were ever made.
    pub fn widget_count(&self) -> (n: usize)
        ensures
            n == self.inners().len(),
    {
        self.nodes.len()
    }

    pub open spec fn holds(&self, widget: Widget) -> bool {
        self.census().holds(widget)
    }

    pub proof fn holds_in_range(&self, widget: Widget)
        requires
            self.wf(),
            self.holds(widget),
        ensures
            widget.id < self.inners().len(),
            self@.has(widget),
    {
        self.census().lives_in_range(widget.id as int);
    }

    pub fn is_alive(&self, widget: &Widget) -> (alive: bool)
        ensures
            alive == self.holds(*widget),
    {
        self.census.is_alive(widget)
    }

    pub fn census_ref(&self) -> (census: &Census)
        ensures
            *census == self.census(),
    {
        &self.census
    }

    pub fn root_component(&self) -> (root: Widget)
        ensures
            root == self.root(),
    {
        self.root
    }

    /// Makes `new_root` the root of the tree.
    pub fn replace_root_component(&mut self, new_root: Widget)
        requires
            old(self).wf(),
            old(self).holds(new_root),
        ensures
            final(self).wf(),
            final(self).root() == new_root,
            final(self).census() == old(self).census(),
            final(self).inners() == old(self).inners(),
            final(self).linkage() == old(self).linkage(),
            final(self).listeners() == old(self).listeners(),
            final(self).placeholder() == old(self).placeholder(),
            final(self).instance() == old(self).instance(),
            final(self).redraw_pending() == old(self).redraw_pending(),
    {
        self.root = new_root;
        assert(self@ == old(self)@);
    }

    pub fn placeholder_widget(&self) -> (widget: Widget)
        ensures
            widget == self.placeholder(),
    {
        self.placeholder
    }

    pub fn instance_ref(&self) -> (instance: &Instance<P, L>)
        ensures
            *instance == self.instance(),
    {
        &self.instance
    }

    /// Asks the platform to draw again. Asking twice is asking once.
    pub fn request_redraw(&mut self)
        ensures
            final(self).redraw_pending(),
            final(self).same_frame(old(self)),
            final(self).inners() == old(self).inners(),
            final(self).instance() == old(self).instance(),
            old(self).wf() ==> final(self).wf(),
    {
        self.redraw = true;
        assert(self@.nodes == old(self)@.nodes);
    }

    /// Takes the pending request to draw again, if there is one.
    pub fn take_redraw_request(&mut self) -> (pending: bool)
        ensures
            pending == old(self).redraw_pending(),
            !final(self).redraw_pending(),
            final(self).same_frame(old(self)),
            final(self).inners() == old(self).inners(),
            final(self).instance() == old(self).instance(),
            old(self).wf() ==> final(self).wf(),
    {
        let pending = self.redraw;
        self.redraw = false;
        assert(self@.nodes == old(self)@.nodes);
        pending
    }

    /// What `widget` is and holds.
    pub fn widget(&self, widget: Widget) -> (inner: &WidgetInner<P>)
        requires
            self.wf(),
            self.holds(widget),
        ensures
            *inner == self.inners()[widget.id as int],
    {
        proof {
            self.holds_in_range(widget);
        }
        &self.nodes[widget.id]
    }

    /// What `widget` is and holds, open to change. Such changes reach the tree
    /// in no way, so that `frame_keeps_wf` shows the toolkit well-formed again
    /// whatever was written.
    pub fn widget_mut(&mut self, widget: Widget) -> (inner: &mut WidgetInner<P>)
        requires
            old(self).wf(),
            old(self).holds(widget),
        ensures
            *inner == old(self).inners()[widget.id as int],
            final(self).inners() == old(self).inners().update(widget.id as int, *final(inner)),
            final(self).same_frame(old(self)),
            final(self).instance() == old(self).instance(),
            final(self).redraw_pending() == old(self).redraw_pending(),
    {
        proof {
            self.holds_in_range(widget);
        }
        &mut self.nodes[widget.id]
    }

    /// The events of `widget`.
    pub fn events(&self, widget: Widget) -> (events: &WidgetEvents<P, L>)
        requires
            self.wf(),
            self.holds(widget),
        ensures
            *events == self.listeners()[widget.id as int],
    {
        proof {
            self.holds_in_range(widget);
        }
        &self.events[widget.id]
    }

    /// The events of `widget`, open to subscription.
    pub fn events_mut(&mut self, widget: Widget) -> (events: &mut WidgetEvents<P, L>)
        requires
            old(self).wf(),
            old(self).holds(widget),
        ensures
            *events == old(self).listeners()[widget.id as int],
            final(self).listeners() == old(self).listeners().update(
                widget.id as int,
                *final(events),
            ),
            final(self).census() == old(self).census(),
            final(self).inners() == old(self).inners(),
            final(self).linkage() == old(self).linkage(),
            final(self).root() == old(self).root(),
            final(self).placeholder() == old(self).placeholder(),
            final(self).instance() == old(self).instance(),
            final(self).redraw_pending() == old(self).redraw_pending(),
    {
        proof {
            self.holds_in_range(widget);
        }
        &mut self.events[widget.id]
    }

    /// What `widget` owns below itself.
    pub fn links(&self, widget: Widget) -> (links: &Links<P>)
        requires
            self.wf(),
            self.holds(widget),
        ensures
            *links == self.linkage()[widget.id as int],
    {
        proof {
            self.holds_in_range(widget);
        }
        &self.links[widget.id]
    }

    /// The tab orders, the focus and the keyboard events, open to change.
    pub fn instance_mut(&mut self) -> (instance: &mut Instance<P, L>)
        ensures
            *instance == old(self).instance(),
            final(self).instance() == *final(instance),
            final(self).same_frame(old(self)),
            final(self).inners() == old(self).inners(),
            final(self).redraw_pending() == old(self).redraw_pending(),
    {
        &mut self.instance
    }

    /// Changing what widgets are and hold, or the listeners of their events,
    /// leaves a well-formed toolkit well-formed.
    pub proof fn frame_keeps_wf(&self, before: &Self)
        requires
            before.wf(),
            self.census() == before.census(),
            self.linkage() == before.linkage(),
            self.root() == before.root(),
            self.placeholder() == before.placeholder(),
            self.inners().len() == before.inners().len(),
            self.listeners().len() == before.listeners().len(),
        ensures
            self.wf(),
    {
        assert forall|i: int, k: int|
            0 <= i < self@.nodes.len() && self@.nodes[i].alive && 0 <= k
                < self@.nodes[i].children.len() implies self@.has(
            #[trigger] self@.nodes[i].children[k],
        ) by {
            let c = before@.nodes[i].children[k];
            assert(before@.has(c));
        }
    }

    /// Whether `self` is `before` with one more widget, `widget`, which is fresh:
    /// of standard values, owning nothing, with no listener anywhere.
    pub open spec fn grown(&self, before: &Self, widget: Widget) -> bool {
        &&& widget.id == before.inners().len()
        &&& self.inners().len() == before.inners().len() + 1
        &&& self.inners().drop_last() == before.inners()
        &&& self.inners().last().fresh(widget)
        &&& self.linkage().drop_last() == before.linkage()
        &&& self.linkage().last().children() == Seq::<Widget>::empty()
        &&& self.linkage().last().content() is None
        &&& self.listeners().drop_last() == before.listeners()
        &&& self.listeners().last().silent()
        &&& self.census().size() == before.census().size() + 1
        &&& self.holds(widget)
        &&& forall|id: int| id != widget.id ==> self.census().lives(id) == before.census().lives(id)
        &&& self.root() == before.root()
        &&& self.placeholder() == before.placeholder()
        &&& self.instance() == before.instance()
        &&& self.redraw_pending() == before.redraw_pending()
    }

    /// The model of a fresh widget.
    pub open spec fn blank() -> Node {
        Node {
            alive: true,
            position: IntPair { x: 0, y: 0 },
            size: IntPair { x: 0, y: 0 },
            enabled: true,
            children: Seq::empty(),
            kind: Kind::Plain,
        }
    }

    /// Makes a widget that nothing owns yet.
    pub fn create_widget(&mut self) -> (widget: Widget)
        requires
            old(self).wf(),
        ensures
            final(self).wf(),
            final(self).grown(old(self), widget),
            final(self)@ == (World { nodes: old(self)@.nodes.push(Self::blank()), ..old(self)@ }),
    {
        let widget = self.census.enroll();
        self.nodes.push(WidgetInner::new(widget));
        self.links.push(Links::new(widget));
        self.events.push(WidgetEvents::new(widget));
        proof {
            let n = old(self).inners().len() as int;
            assert(self.inners().drop_last() =~= old(self).inners());
            assert(self.linkage().drop_last() =~= old(self).linkage());
            assert(self.listeners().drop_last() =~= old(self).listeners());
            assert forall|i: int| 0 <= i < n implies self@.nodes[i] == old(self)@.nodes[i] by {
                assert(self.inners()[i] == old(self).inners()[i]);
                assert(self.linkage()[i] == old(self).linkage()[i]);
            }
            assert(self@.nodes[n] == Self::blank());
            assert(self@.nodes =~= old(self)@.nodes.push(Self::blank()));
            assert forall|i: int, k: int|
                0 <= i < self@.nodes.len() && self@.nodes[i].alive && 0 <= k
                    < self@.nodes[i].children.len() implies self@.has(
                #[trigger] self@.nodes[i].children[k],
            ) by {
                assert(i < n);
                let c = old(self)@.nodes[i].children[k];
                assert(old(self)@.has(c));
            }
            assert forall|i: int|
                0 <= i < self.inners().len() && self.census().lives(i) && (
                #[trigger] self.linkage()[i]).content() is Some implies self.census().holds(
                self.linkage()[i].content()->0,
            ) by {
                if i < n {
                    assert(self.linkage()[i] == old(self).linkage()[i]);
                    assert(old(self).census().holds(old(self).linkage()[i].content()->0));
                }
            }
        }
        widget
    }

    /// A toolkit with its placeholder and, as the root, an empty layout.
    pub fn new() -> (ui: Self)
        ensures
            ui.wf(),
            ui@.nodes.len() == 2,
            ui.placeholder().id == 0,
            ui.root().id == 1,
            ui@.nodes[0] == Self::blank(),
            ui@.nodes[1] == (Node {
                kind: Kind::Layout { hovered: Seq::empty(), pointer: IntPair { x: 0, y: 0 } },
                ..Self::blank()
            }),
            ui@.focused == WidgetRef::nothing(),
            !ui@.redraw,
            ui.instance().manual_tab_order@.len() == 0,
            ui.instance().auto_tab_order@.len() == 0,
            ui.instance().on_key_down@.len() == 0,
            ui.instance().on_key_up@.len() == 0,
            ui.instance().focused_component.listeners().len() == 0,
            !ui.instance().routing,
            ui.listeners()[0].silent(),
            ui.listeners()[1].silent(),
    {
        let mut census = Census::new();
        let placeholder = census.enroll();
        let mut nodes: Vec<WidgetInner<P>> = Vec::new();
        nodes.push(WidgetInner::new(placeholder));
        let mut links: Vec<Links<P>> = Vec::new();
        links.push(Links::new(placeholder));
        let mut events: Vec<WidgetEvents<P, L>> = Vec::new();
        events.push(WidgetEvents::new(placeholder));
        let back = WidgetRef { slot: Some(placeholder.id) };
        let instance = Instance {
            manual_tab_order: Vec::new(),
            auto_tab_order: Vec::new(),
            focused_component: Property::new(WidgetRef { slot: None }, back),
            on_key_down: Event::new(back),
            on_key_up: Event::new(back),
            routing: false,
        };
        let mut ui = Caribou {
            census,
            nodes,
            links,
            events,
            root: placeholder,
            placeholder,
            instance,
            redraw: false,
        };
        assert(ui@.nodes[0] == Self::blank());
        assert(ui.wf());
        let ghost bare = ui;
        assert(bare.listeners()[0].silent());
        let root = Layout::create(&mut ui);
        proof {
            assert(ui@.nodes.len() == 2);
            assert(ui.inners().len() == 2);
            assert(ui.listeners().len() == 2);
        }
        ui.root = root;
        proof {
            assert(ui.listeners().len() == 2);
            assert(ui.listeners().drop_last()[0] == bare.listeners()[0]);
            assert(ui.listeners().last() == ui.listeners()[1]);
            assert(ui@.nodes[0] == Self::blank());
        }
        ui
    }


    /// Whether `self` differs from `before` at most in what `parent` owns.
    pub open spec fn relinked(&self, before: &Self, parent: Widget) -> bool {
        &&& self.census() == before.census()
        &&& self.inners() == before.inners()
        &&& self.listeners() == before.listeners()
        &&& self.root() == before.root()
        &&& self.placeholder() == before.placeholder()
        &&& self.instance() == before.instance()
        &&& self.redraw_pending() == before.redraw_pending()
        &&& self.linkage().len() == before.linkage().len()
        &&& forall|i: int|
            0 <= i < self.linkage().len() && i != parent.id ==> self.linkage()[i]
                == before.linkage()[i]
    }

    /// Giving a widget other living widgets to own keeps the toolkit well-formed.
    pub proof fn relink_keeps_wf(&self, before: &Self, parent: Widget)
        requires
            before.wf(),
            before.holds(parent),
            self.relinked(before, parent),
            forall|k: int|
                0 <= k < self.linkage()[parent.id as int].children().len() ==> self.holds(
                    #[trigger] self.linkage()[parent.id as int].children()[k],
                ),
            self.linkage()[parent.id as int].content() is Some ==> self.holds(
                self.linkage()[parent.id as int].content()->0,
            ),
        ensures
            self.wf(),
    {
        before.holds_in_range(parent);
        assert forall|i: int, k: int|
            0 <= i < self@.nodes.len() && self@.nodes[i].alive && 0 <= k
                < self@.nodes[i].children.len() implies self@.has(
            #[trigger] self@.nodes[i].children[k],
        ) by {
            if i != parent.id {
                assert(self.linkage()[i] == before.linkage()[i]);
                let c = before@.nodes[i].children[k];
                assert(before@.has(c));
            } else {
                let c = self.linkage()[parent.id as int].children()[k];
                assert(self.holds(c));
                self.census().lives_in_range(c.id as int);
            }
        }
        assert forall|i: int|
            0 <= i < self.inners().len() && self.census().lives(i) && (
            #[trigger] self.linkage()[i]).content() is Some implies self.census().holds(
            self.linkage()[i].content()->0,
        ) by {
            if i != parent.id {
                assert(self.linkage()[i] == before.linkage()[i]);
            }
        }
    }

    /// What a living widget owns exists.
    pub proof fn owned_exist(&self, parent: Widget)
        requires
            self.wf(),
            self.holds(parent),
        ensures
            forall|k: int|
                0 <= k < self.linkage()[parent.id as int].children().len() ==> self.holds(
                    #[trigger] self.linkage()[parent.id as int].children()[k],
                ),
            self.linkage()[parent.id as int].content() is Some ==> self.holds(
                self.linkage()[parent.id as int].content()->0,
            ),
    {
        self.holds_in_range(parent);
        assert forall|k: int|
            0 <= k < self.linkage()[parent.id as int].children().len() implies self.holds(
            #[trigger] self.linkage()[parent.id as int].children()[k],
        ) by {
            let c = self@.nodes[parent.id as int].children[k];
            assert(self@.has(c));
        }
    }

    /// Gives `child` to `parent` as its last child, then tells the listeners of
    /// the parent's children of the grown list.
    pub fn push_child(&mut self, parent: Widget, child: Widget)
        requires
            old(self).wf(),
            old(self).holds(parent),
            old(self).holds(child),
        ensures
            final(self).wf(),
            final(self).relinked(old(self), parent),
            final(self).linkage()[parent.id as int].children() == old(self).linkage()[parent.id as int].children().push(
                child,
            ),
            final(self).linkage()[parent.id as int].content == old(self).linkage()[parent.id as int].content,
            old(self).linkage()[parent.id as int].children.same_watch(
                &final(self).linkage()[parent.id as int].children,
            ),
            informed(
                old(self).linkage()[parent.id as int].children.listeners(),
                &final(self).linkage()[parent.id as int].children@,
            ),
    {
        proof {
            self.holds_in_range(parent);
            self.owned_exist(parent);
        }
        self.links[parent.id].children.push(child);
        proof {
            self.relink_keeps_wf(old(self), parent);
        }
    }

    /// Takes the last child of `parent`, if it has one, then tells the
    /// listeners of the parent's children.
    pub fn pop_child(&mut self, parent: Widget) -> (child: Option<Widget>)
        requires
            old(self).wf(),
            old(self).holds(parent),
        ensures
            final(self).wf(),
            final(self).relinked(old(self), parent),
            old(self).linkage()[parent.id as int].children().len() == 0 ==> child is None && final(self).linkage()[parent.id as int].children() == old(self).linkage()[parent.id as int].children(),
            old(self).linkage()[parent.id as int].children().len() > 0 ==> child == Some(
                old(self).linkage()[parent.id as int].children().last(),
            ) && final(self).linkage()[parent.id as int].children() == old(self).linkage()[parent.id as int].children().drop_last(),
            final(self).linkage()[parent.id as int].content == old(self).linkage()[parent.id as int].content,
            old(self).linkage()[parent.id as int].children.same_watch(
                &final(self).linkage()[parent.id as int].children,
            ),
            informed(
                old(self).linkage()[parent.id as int].children.listeners(),
                &final(self).linkage()[parent.id as int].children@,
            ),
    {
        proof {
            self.holds_in_range(parent);
            self.owned_exist(parent);
        }
        let child = self.links[parent.id].children.pop();
        proof {
            self.relink_keeps_wf(old(self), parent);
        }
        child
    }

    /// Takes the child of `parent` at `index`, then tells the listeners of the
    /// parent's children.
    pub fn remove_child(&mut self, parent: Widget, index: usize) -> (child: Widget)
        requires
            old(self).wf(),
            old(self).holds(parent),
            index < old(self).linkage()[parent.id as int].children().len(),
        ensures
            final(self).wf(),
            final(self).relinked(old(self), parent),
            child == old(self).linkage()[parent.id as int].children()[index as int],
            final(self).linkage()[parent.id as int].children() == old(self).linkage()[parent.id as int].children().remove(
                index as int,
            ),
            final(self).linkage()[parent.id as int].content == old(self).linkage()[parent.id as int].content,
            old(self).linkage()[parent.id as int].children.same_watch(
                &final(self).linkage()[parent.id as int].children,
            ),
            informed(
                old(self).linkage()[parent.id as int].children.listeners(),
                &final(self).linkage()[parent.id as int].children@,
            ),
    {
        proof {
            self.holds_in_range(parent);
            self.owned_exist(parent);
        }
        let child = self.links[parent.id].children.remove(index);
        proof {
            self.relink_keeps_wf(old(self), parent);
        }
        child
    }

    /// Gives `child` to `parent` as its child number `index`, then tells the
    /// listeners of the parent's children.
    pub fn insert_child(&mut self, parent: Widget, index: usize, child: Widget)
        requires
            old(self).wf(),
            old(self).holds(parent),
            old(self).holds(child),
            index <= old(self).linkage()[parent.id as int].children().len(),
        ensures
            final(self).wf(),
            final(self).relinked(old(self), parent),
            final(self).linkage()[parent.id as int].children() == old(self).linkage()[parent.id as int].children().insert(
                index as int,
                child,
            ),
            final(self).linkage()[parent.id as int].content == old(self).linkage()[parent.id as int].content,
            old(self).linkage()[parent.id as int].children.same_watch(
                &final(self).linkage()[parent.id as int].children,
            ),
            informed(
                old(self).linkage()[parent.id as int].children.listeners(),
                &final(self).linkage()[parent.id as int].children@,
            ),
    {
        proof {
            self.holds_in_range(parent);
            self.owned_exist(parent);
        }
        self.links[parent.id].children.insert(index, child);
        proof {
            self.relink_keeps_wf(old(self), parent);
        }
    }

    /// Takes every child from `parent`, then tells the listeners of the
    /// parent's children of the empty list.
    pub fn clear_children(&mut self, parent: Widget)
        requires
            old(self).wf(),
            old(self).holds(parent),
        ensures
            final(self).wf(),
            final(self).relinked(old(self), parent),
            final(self).linkage()[parent.id as int].children() == Seq::<Widget>::empty(),
            final(self).linkage()[parent.id as int].content == old(self).linkage()[parent.id as int].content,
            old(self).linkage()[parent.id as int].children.same_watch(
                &final(self).linkage()[parent.id as int].children,
            ),
            informed(
                old(self).linkage()[parent.id as int].children.listeners(),
                &final(self).linkage()[parent.id as int].children@,
            ),
    {
        proof {
            self.holds_in_range(parent);
            self.owned_exist(parent);
        }
        self.links[parent.id].children.clear();
        proof {
            self.relink_keeps_wf(old(self), parent);
        }
    }

    /// Gives `child` to `parent` as its content, then tells the listeners of
    /// the parent's content.
    pub fn put_content(&mut self, parent: Widget, child: Widget)
        requires
            old(self).wf(),
            old(self).holds(parent),
            old(self).holds(child),
        ensures
            final(self).wf(),
            final(self).relinked(old(self), parent),
            final(self).linkage()[parent.id as int].content() == Some(child),
            final(self).linkage()[parent.id as int].children == old(self).linkage()[parent.id as int].children,
            old(self).linkage()[parent.id as int].content.same_watch(
                &final(self).linkage()[parent.id as int].content,
            ),
            informed(
                old(self).linkage()[parent.id as int].content.listeners(),
                &final(self).linkage()[parent.id as int].content@,
            ),
    {
        proof {
            self.holds_in_range(parent);
            self.owned_exist(parent);
        }
        self.links[parent.id].content.put(child);
        proof {
            self.relink_keeps_wf(old(self), parent);
        }
    }

    /// Takes the content of `parent`, if it has one, then tells the listeners
    /// of the parent's content.
    pub fn take_content(&mut self, parent: Widget) -> (child: Option<Widget>)
        requires
            old(self).wf(),
            old(self).holds(parent),
        ensures
            final(self).wf(),
            final(self).relinked(old(self), parent),
            child == old(self).linkage()[parent.id as int].content(),
            final(self).linkage()[parent.id as int].content() is None,
            final(self).linkage()[parent.id as int].children == old(self).linkage()[parent.id as int].children,
            old(self).linkage()[parent.id as int].content.same_watch(
                &final(self).linkage()[parent.id as int].content,
            ),
            informed(
                old(self).linkage()[parent.id as int].content.listeners(),
                &final(self).linkage()[parent.id as int].content@,
            ),
    {
        proof {
            self.holds_in_range(parent);
            self.owned_exist(parent);
        }
        let child = self.links[parent.id].content.take();
        proof {
            self.relink_keeps_wf(old(self), parent);
        }
        child
    }

    /// Whether some living widget has `widget` among its children or as its content.
    pub open spec fn owned(&self, widget: Widget) -> bool {
        exists|i: int|
            0 <= i < self.linkage().len() && self.census().lives(i) && ((
            #[trigger] self.linkage()[i]).children().contains(widget) || self.linkage()[i].content()
                == Some(widget))
    }

    /// Whether `widget` can cease to exist: it exists, it is neither the root
    /// nor the placeholder, and no living widget owns it.
    pub open spec fn free(&self, widget: Widget) -> bool {
        &&& self.holds(widget)
        &&& widget != self.root()
        &&& widget != self.placeholder()
        &&& !self.owned(widget)
    }

    /// Lets `widget` cease to exist, if nothing in the tree owns it. Every
    /// observing handle to it is dead from then on. What the widget itself
    /// owned stays alive, now owned by one widget less.
    pub fn destroy(&mut self, widget: Widget) -> (gone: bool)
        requires
            old(self).wf(),
        ensures
            final(self).wf(),
            gone == old(self).free(widget),
            gone ==> !final(self).holds(widget) && forall|id: int|
                id != widget.id ==> final(self).census().lives(id) == old(self).census().lives(id),
            !gone ==> final(self).census() == old(self).census(),
            final(self).census().size() == old(self).census().size(),
            final(self).inners() == old(self).inners(),
            final(self).linkage() == old(self).linkage(),
            final(self).listeners() == old(self).listeners(),
            final(self).root() == old(self).root(),
            final(self).placeholder() == old(self).placeholder(),
            final(self).instance() == old(self).instance(),
            final(self).redraw_pending() == old(self).redraw_pending(),
    {
        if !self.census.is_alive(&widget) {
            return false;
        }
        if widget.id == self.root.id || widget.id == self.placeholder.id {
            return false;
        }
        let n = self.links.len();
        let mut i: usize = 0;
        while i < n
            invariant
                i <= n,
                n == self.links@.len(),
                *self == *old(self),
                self.wf(),
                forall|k: int|
                    0 <= k < i && self.census().lives(k) ==> !(
                    #[trigger] self.linkage()[k]).children().contains(widget)
                        && self.linkage()[k].content() != Some(widget),
            decreases n - i,
        {
            if self.census.is_alive(&Widget { id: i }) {
                if self.links[i].children.get().contains_widget(&widget) {
                    return false;
                }
                match self.links[i].content.get_copy() {
                    Some(c) => {
                        if c.id == widget.id {
                            return false;
                        }
                    },
                    None => {},
                }
            }
            i += 1;
        }
        assert(!self.owned(widget));
        self.census.strike(widget);
        proof {
            assert(self@.nodes.len() == old(self)@.nodes.len());
            assert forall|a: int, k: int|
                0 <= a < self@.nodes.len() && self@.nodes[a].alive && 0 <= k
                    < self@.nodes[a].children.len() implies self@.has(
                #[trigger] self@.nodes[a].children[k],
            ) by {
                let c = old(self)@.nodes[a].children[k];
                assert(old(self)@.has(c));
                assert(old(self).linkage()[a].children().contains(c));
                assert(c != widget);
            }
        }
        true
    }

    /// The owning handle of the widget that `r` observes, if it still exists.
    pub fn acquire(&self, r: &WidgetRef) -> (widget: Option<Widget>)
        ensures
            widget is Some <==> self.census().reaches(*r),
            widget matches Some(w) ==> w.observer() == *r && self.holds(w),
    {
        r.acquire(&self.census)
    }

    /// Enters `widget` at the end of the automatic tab order.
    pub fn register_auto_tab_order(&mut self, widget: &Widget)
        ensures
            final(self).instance().auto_tab_order@ == old(self).instance().auto_tab_order@.push(
                widget.observer(),
            ),
            final(self).instance().manual_tab_order == old(self).instance().manual_tab_order,
            final(self).instance().focused_component == old(self).instance().focused_component,
            final(self).instance().on_key_down == old(self).instance().on_key_down,
            final(self).instance().on_key_up == old(self).instance().on_key_up,
            final(self).instance().routing == old(self).instance().routing,
            final(self).same_frame(old(self)),
            final(self).inners() == old(self).inners(),
            final(self).redraw_pending() == old(self).redraw_pending(),
            final(self)@ == old(self)@,
            old(self).wf() ==> final(self).wf(),
    {
        self.instance.auto_tab_order.push(WidgetRef { slot: Some(widget.id) });
        assert(self@.nodes =~= old(self)@.nodes);
    }

    /// Installs the routing of the keyboard: from now on Tab moves the focus and
    /// every other key goes to the holder of the focus.
    pub fn launch(&mut self)
        ensures
            final(self).instance().routing,
            final(self).instance().auto_tab_order == old(self).instance().auto_tab_order,
            final(self).instance().manual_tab_order == old(self).instance().manual_tab_order,
            final(self).instance().focused_component == old(self).instance().focused_component,
            final(self).instance().on_key_down == old(self).instance().on_key_down,
            final(self).instance().on_key_up == old(self).instance().on_key_up,
            final(self).same_frame(old(self)),
            final(self).inners() == old(self).inners(),
            final(self).redraw_pending() == old(self).redraw_pending(),
            final(self)@ == old(self)@,
            old(self).wf() ==> final(self).wf(),
    {
        self.instance.routing = true;
        assert(self@.nodes =~= old(self)@.nodes);
    }

    /// Drops from both tab orders every entry whose widget exists no longer.
    pub fn purge_tab_orders(&mut self)
        ensures
            final(self).instance().manual_tab_order@ == crate::handle::surviving(
                old(self).instance().manual_tab_order@,
                old(self).census(),
            ),
            final(self).instance().auto_tab_order@ == crate::handle::surviving(
                old(self).instance().auto_tab_order@,
                old(self).census(),
            ),
            final(self).instance().focused_component == old(self).instance().focused_component,
            final(self).instance().on_key_down == old(self).instance().on_key_down,
            final(self).instance().on_key_up == old(self).instance().on_key_up,
            final(self).instance().routing == old(self).instance().routing,
            final(self).same_frame(old(self)),
            final(self).inners() == old(self).inners(),
            final(self).redraw_pending() == old(self).redraw_pending(),
            final(self)@ == old(self)@,
            old(self).wf() ==> final(self).wf(),
    {
        self.instance.manual_tab_order.clean(&self.census);
        self.instance.auto_tab_order.clean(&self.census);
        assert(self@.nodes =~= old(self)@.nodes);
    }

    /// Takes the content from `parent`, then tells the listeners of the
    /// parent's content that it is empty.
    pub fn clear_content(&mut self, parent: Widget)
        requires
            old(self).wf(),
            old(self).holds(parent),
        ensures
            final(self).wf(),
            final(self).relinked(old(self), parent),
            final(self).linkage()[parent.id as int].content() is None,
            final(self).linkage()[parent.id as int].children == old(self).linkage()[parent.id as int].children,
            old(self).linkage()[parent.id as int].content.same_watch(
                &final(self).linkage()[parent.id as int].content,
            ),
            informed(
                old(self).linkage()[parent.id as int].content.listeners(),
                &final(self).linkage()[parent.id as int].content@,
            ),
    {
        proof {
            self.holds_in_range(parent);
            self.owned_exist(parent);
        }
        self.links[parent.id].content.clear();
        proof {
            self.relink_keeps_wf(old(self), parent);
        }
    }

    /// Subscribes `listener` to the list of children of `parent` and returns
    /// the token of the subscription.
    pub fn watch_children(&mut self, parent: Widget, listener: P::OnChildren) -> (token: u64)
        requires
            old(self).wf(),
            old(self).holds(parent),
            old(self).linkage()[parent.id as int].children.issued() < u64::MAX,
        ensures
            final(self).wf(),
            final(self).relinked(old(self), parent),
            final(self).linkage()[parent.id as int].children.listeners() == old(self).linkage()[parent.id as int].children.listeners().push(
                crate::property::Listener { token, func: listener },
            ),
            token == old(self).linkage()[parent.id as int].children.issued(),
            final(self).linkage()[parent.id as int].children() == old(self).linkage()[parent.id as int].children(),
            final(self).linkage()[parent.id as int].content == old(self).linkage()[parent.id as int].content,
    {
        proof {
            self.holds_in_range(parent);
            self.owned_exist(parent);
        }
        let token = self.links[parent.id].children.listen(listener);
        proof {
            self.relink_keeps_wf(old(self), parent);
        }
        token
    }

    /// Subscribes `listener` to the content of `parent` and returns the token
    /// of the subscription.
    pub fn watch_content(&mut self, parent: Widget, listener: P::OnContent) -> (token: u64)
        requires
            old(self).wf(),
            old(self).holds(parent),
            old(self).linkage()[parent.id as int].content.issued() < u64::MAX,
        ensures
            final(self).wf(),
            final(self).relinked(old(self), parent),
            final(self).linkage()[parent.id as int].content.listeners() == old(self).linkage()[parent.id as int].content.listeners().push(
                crate::property::Listener { token, func: listener },
            ),
            token == old(self).linkage()[parent.id as int].content.issued(),
            final(self).linkage()[parent.id as int].content() == old(self).linkage()[parent.id as int].content(),
            final(self).linkage()[parent.id as int].children == old(self).linkage()[parent.id as int].children,
    {
        proof {
            self.holds_in_range(parent);
            self.owned_exist(parent);
        }
        let token = self.links[parent.id].content.listen(listener);
        proof {
            self.relink_keeps_wf(old(self), parent);
        }
        token
    }
}

} // verus!
