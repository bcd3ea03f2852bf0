//! The widget node: its standard properties, its standard events, and the
//! families of listener types a toolkit is built over.

use crate::batch::{Batch, Brush, Font};
use crate::event::{Event, SingleArg, ZeroArg};
use crate::handle::{Widget, WidgetRef};
use crate::input::KeyEvent;
use crate::math::IntPair;
use crate::property::{Mute, Notify, Property};
use crate::widgets::{ButtonPaint, WidgetData};
use vstd::prelude::*;

verus! {

/// The listener types of the properties of a toolkit, one for each type of
/// value that a property holds.
pub trait Watchers {
    type OnPair: Notify<IntPair>;

    type OnFlag: Notify<bool>;

    type OnParent: Notify<Option<WidgetRef>>;

    type OnContent: Notify<Option<Widget>>;

    type OnChildren: Notify<Vec<Widget>>;

    type OnBrush: Notify<Brush>;

    type OnFont: Notify<Font>;

    type OnText: Notify<String>;

    type OnFocus: Notify<WidgetRef>;
}

/// The listener types of the events of a toolkit, one for each shape of event.
pub trait Listeners<P: Watchers> {
    /// Events without payload and without answer.
    type Signal: ZeroArg<WidgetInner<P>, ()>;

    /// Events that ask for a batch to draw.
    type Draw: ZeroArg<WidgetInner<P>, Batch>;

    /// Events that ask for consent: `false` refuses.
    type Veto: ZeroArg<WidgetInner<P>, bool>;

    /// Pointer motion, with the position in the widget's own coordinates.
    type Motion: SingleArg<WidgetInner<P>, IntPair, ()>;

    type Keys: SingleArg<WidgetInner<P>, KeyEvent, ()>;

    type Text: SingleArg<WidgetInner<P>, String, ()>;

    /// The generic action of a widget, with a payload the toolkit does not read.
    type Action: SingleArg<WidgetInner<P>, u64, ()>;

    /// The draw listener that paints a button in the colours of `paint`.
    fn stock(paint: ButtonPaint) -> (listener: Self::Draw)
        ensures
            paint.painted_by::<P, Self::Draw>(&listener),
    ;
}

/// What a widget is and holds, apart from its place in the tree and from its
/// event listeners. This is what a listener is shown of its widget.
pub struct WidgetInner<P: Watchers> {
    pub me: Widget,
    pub position: Property<IntPair, P::OnPair>,
    pub size: Property<IntPair, P::OnPair>,
    pub enabled: Property<bool, P::OnFlag>,
    pub parent: Property<Option<WidgetRef>, P::OnParent>,
    pub background: Property<Brush, P::OnBrush>,
    pub foreground: Property<Brush, P::OnBrush>,
    pub boarder: Property<Brush, P::OnBrush>,
    pub font: Property<Font, P::OnFont>,
    /// The private state of the widget's flavor, if it has one.
    pub data: Property<Option<WidgetData<P>>, Mute>,
}

impl<P: Watchers> WidgetInner<P> {
    pub fn handle(&self) -> (widget: Widget)
        ensures
            widget == self.me,
    {
        self.me
    }

    /// A widget with the standard values: at the origin, without extent,
    /// enabled, without parent, transparent, in the default font, of no flavor.
    pub open spec fn fresh(&self, me: Widget) -> bool {
        &&& self.me == me
        &&& self.position@ == (IntPair { x: 0, y: 0 })
        &&& self.size@ == (IntPair { x: 0, y: 0 })
        &&& self.enabled@ == true
        &&& self.parent@ is None
        &&& self.background@ == Brush::clear()
        &&& self.foreground@ == Brush::clear()
        &&& self.boarder@ == Brush::clear()
        &&& self.font@.family@ == "DengXian"@
        &&& self.font@.size == 12
        &&& self.font@.weight == 400
        &&& self.font@.slant == crate::batch::FontSlant::Normal
        &&& self.data@ is None
        &&& self.unwatched()
    }

    /// No property of the widget has a listener.
    pub open spec fn unwatched(&self) -> bool {
        &&& self.position.listeners().len() == 0
        &&& self.size.listeners().len() == 0
        &&& self.enabled.listeners().len() == 0
        &&& self.parent.listeners().len() == 0
        &&& self.background.listeners().len() == 0
        &&& self.foreground.listeners().len() == 0
        &&& self.boarder.listeners().len() == 0
        &&& self.font.listeners().len() == 0
        &&& self.data.listeners().len() == 0
    }

    /// Whether `other` is this widget with, at most, another state of its
    /// flavor: all else, the listeners of every property too, is the same.
    pub open spec fn same_but_state(&self, other: &Self) -> bool {
        &&& self.me == other.me
        &&& self.position == other.position
        &&& self.size == other.size
        &&& self.enabled == other.enabled
        &&& self.parent == other.parent
        &&& self.background == other.background
        &&& self.foreground == other.foreground
        &&& self.boarder == other.boarder
        &&& self.font == other.font
        &&& self.data.same_watch(&other.data)
        &&& crate::widgets::same_but_state(self.data@, other.data@)
    }

    pub fn new(me: Widget) -> (inner: WidgetInner<P>)
        ensures
            inner.fresh(me),
    {
        let back = WidgetRef { slot: Some(me.id) };
        WidgetInner {
            me,
            position: Property::new(IntPair::new(0, 0), back),
            size: Property::new(IntPair::new(0, 0), back),
            enabled: Property::new(true, back),
            parent: Property::new(None, back),
            background: Property::new(Brush::transparent(), back),
            foreground: Property::new(Brush::transparent(), back),
            boarder: Property::new(Brush::transparent(), back),
            font: Property::new(Font::default(), back),
            data: Property::new(None, back),
        }
    }
}

/// The place of a widget in the tree: what it owns below itself.
pub struct Links<P: Watchers> {
    pub content: Property<Option<Widget>, P::OnContent>,
    pub children: Property<Vec<Widget>, P::OnChildren>,
}

impl<P: Watchers> Links<P> {
    pub open spec fn content(&self) -> Option<Widget> {
        self.content@
    }

    pub open spec fn children(&self) -> Seq<Widget> {
        self.children@@
    }

    pub fn new(me: Widget) -> (links: Links<P>)
        ensures
            links.content() is None,
            links.children() == Seq::<Widget>::empty(),
    {
        let back = WidgetRef { slot: Some(me.id) };
        Links { content: Property::new(None, back), children: Property::new(Vec::new(), back) }
    }

    pub fn get_content(&self) -> (content: Option<Widget>)
        ensures
            content == self.content(),
    {
        self.content.get_copy()
    }

    pub fn get_children(&self) -> (children: &Vec<Widget>)
        ensures
            children@ == self.children(),
    {
        self.children.get()
    }
}

/// The draw events of the stock widgets' styles.
pub struct StyleEvents<P: Watchers, L: Listeners<P>> {
    pub draw_normal: Event<L::Draw>,
    pub draw_hover: Event<L::Draw>,
    pub draw_pressed: Event<L::Draw>,
    pub draw_disabled: Event<L::Draw>,
    pub draw_unfocused: Event<L::Draw>,
    pub draw_focused: Event<L::Draw>,
}

/// The standard events of a widget.
pub struct WidgetEvents<P: Watchers, L: Listeners<P>> {
    pub action: Event<L::Action>,
    pub on_draw: Event<L::Draw>,
    pub on_update: Event<L::Signal>,
    pub on_primary_down: Event<L::Signal>,
    pub on_primary_up: Event<L::Signal>,
    pub on_secondary_down: Event<L::Signal>,
    pub on_secondary_up: Event<L::Signal>,
    pub on_tertiary_down: Event<L::Signal>,
    pub on_tertiary_up: Event<L::Signal>,
    pub on_mouse_move: Event<L::Motion>,
    pub on_mouse_enter: Event<L::Signal>,
    pub on_mouse_leave: Event<L::Signal>,
    pub on_gain_focus: Event<L::Veto>,
    pub on_lose_focus: Event<L::Veto>,
    pub on_key_down: Event<L::Keys>,
    pub on_key_up: Event<L::Keys>,
    pub on_pre_edit: Event<L::Text>,
    pub on_commit: Event<L::Text>,
    pub styles: StyleEvents<P, L>,
}

impl<P: Watchers, L: Listeners<P>> StyleEvents<P, L> {
    /// Whether every style event can take one more listener.
    pub open spec fn has_room(&self) -> bool {
        &&& self.draw_normal.issued() < u64::MAX
        &&& self.draw_hover.issued() < u64::MAX
        &&& self.draw_pressed.issued() < u64::MAX
        &&& self.draw_disabled.issued() < u64::MAX
    }

    /// Whether `after` is `before` with one more listener at the end, which
    /// paints a button in the colours of `paint`.
    pub open spec fn styled(before: Event<L::Draw>, after: Event<L::Draw>, paint: ButtonPaint) -> bool {
        &&& after@.len() == before@.len() + 1
        &&& after@.drop_last() == before@
        &&& after@.last().token == before.issued()
        &&& paint.painted_by::<P, L::Draw>(&after@.last().func)
        &&& after.owner() == before.owner()
        &&& after.issued() == before.issued() + 1
    }

    /// Gives a button its stock look: one more listener on each of the four
    /// button styles, light grey for the normal and the disabled style, a shade
    /// darker under the pointer, dark with a white caption while pressed, and a
    /// greyed caption while disabled.
    pub fn apply_default_style(&mut self)
        requires
            old(self).has_room(),
        ensures
            Self::styled(old(self).draw_normal, final(self).draw_normal, ButtonPaint::normal()),
            Self::styled(old(self).draw_hover, final(self).draw_hover, ButtonPaint::hover()),
            Self::styled(old(self).draw_pressed, final(self).draw_pressed, ButtonPaint::pressed()),
            Self::styled(
                old(self).draw_disabled,
                final(self).draw_disabled,
                ButtonPaint::disabled(),
            ),
            final(self).draw_unfocused == old(self).draw_unfocused,
            final(self).draw_focused == old(self).draw_focused,
    {
        let normal = L::stock(ButtonPaint::stock_normal());
        self.draw_normal.subscribe(normal);
        let hover = L::stock(ButtonPaint::stock_hover());
        self.draw_hover.subscribe(hover);
        let pressed = L::stock(ButtonPaint::stock_pressed());
        self.draw_pressed.subscribe(pressed);
        let disabled = L::stock(ButtonPaint::stock_disabled());
        self.draw_disabled.subscribe(disabled);
        proof {
            assert(self.draw_normal@.drop_last() =~= old(self).draw_normal@);
            assert(self.draw_hover@.drop_last() =~= old(self).draw_hover@);
            assert(self.draw_pressed@.drop_last() =~= old(self).draw_pressed@);
            assert(self.draw_disabled@.drop_last() =~= old(self).draw_disabled@);
        }
    }
}

impl<P: Watchers, L: Listeners<P>> WidgetEvents<P, L> {
    /// No event has a listener.
    pub open spec fn silent(&self) -> bool {
        &&& self.action@.len() == 0
        &&& self.on_draw@.len() == 0
        &&& self.on_update@.len() == 0
        &&& self.on_primary_down@.len() == 0
        &&& self.on_primary_up@.len() == 0
        &&& self.on_secondary_down@.len() == 0
        &&& self.on_secondary_up@.len() == 0
        &&& self.on_tertiary_down@.len() == 0
        &&& self.on_tertiary_up@.len() == 0
        &&& self.on_mouse_move@.len() == 0
        &&& self.on_mouse_enter@.len() == 0
        &&& self.on_mouse_leave@.len() == 0
        &&& self.on_gain_focus@.len() == 0
        &&& self.on_lose_focus@.len() == 0
        &&& self.on_key_down@.len() == 0
        &&& self.on_key_up@.len() == 0
        &&& self.on_pre_edit@.len() == 0
        &&& self.on_commit@.len() == 0
        &&& self.styles.draw_normal@.len() == 0
        &&& self.styles.draw_hover@.len() == 0
        &&& self.styles.draw_pressed@.len() == 0
        &&& self.styles.draw_disabled@.len() == 0
        &&& self.styles.draw_unfocused@.len() == 0
        &&& self.styles.draw_focused@.len() == 0
    }

    /// The events of the widget `me`, each without a listener.
    pub fn new(me: Widget) -> (events: WidgetEvents<P, L>)
        ensures
            events.silent(),
    {
        let back = WidgetRef { slot: Some(me.id) };
        WidgetEvents {
            action: Event::new(back),
            on_draw: Event::new(back),
            on_update: Event::new(back),
            on_primary_down: Event::new(back),
            on_primary_up: Event::new(back),
            on_secondary_down: Event::new(back),
            on_secondary_up: Event::new(back),
            on_tertiary_down: Event::new(back),
            on_tertiary_up: Event::new(back),
            on_mouse_move: Event::new(back),
            on_mouse_enter: Event::new(back),
            on_mouse_leave: Event::new(back),
            on_gain_focus: Event::new(back),
            on_lose_focus: Event::new(back),
            on_key_down: Event::new(back),
            on_key_up: Event::new(back),
            on_pre_edit: Event::new(back),
            on_commit: Event::new(back),
            styles: StyleEvents {
                draw_normal: Event::new(back),
                draw_hover: Event::new(back),
                draw_pressed: Event::new(back),
                draw_disabled: Event::new(back),
                draw_unfocused: Event::new(back),
                draw_focused: Event::new(back),
            },
        }
    }
}

} // verus!
