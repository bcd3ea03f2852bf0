//! The stock widgets: the layout container, the button and the text field.

use crate::batch::{
    Batch, BatchOp, Brush, Font, Material, Path, PathOp, TextAlignment, Transform,
};
use crate::caribou::Caribou;
use crate::event::ZeroArg;
use crate::handle::{Widget, WidgetRef};
use crate::math::{clamp, half, IntPair};
use crate::model::{Kind, Node, World};
use crate::property::Property;
use crate::widget::{Links, Listeners, Watchers, WidgetInner};
use vstd::prelude::*;

verus! {

/// The private state of a widget's flavor.
pub enum WidgetData<P: Watchers> {
    Layout(LayoutData),
    Button(ButtonData<P>),
    TextField(TextFieldData<P>),
}

/// What a layout remembers of the pointer: the children it hovers over, in
/// child order, and where it was last seen.
pub struct LayoutData {
    pub cur_hov: Vec<WidgetRef>,
    pub cur_pos: IntPair,
}

#[derive(Debug, Clone, Copy, PartialEq, Eq, Structural)]
pub enum ButtonState {
    Normal,
    Hover,
    Pressed,
}

pub struct ButtonData<P: Watchers> {
    pub text: Property<String, P::OnText>,
    pub state: ButtonState,
    pub focused: bool,
}

pub struct TextFieldData<P: Watchers> {
    pub text: Property<String, P::OnText>,
    pub enabled: Property<bool, P::OnFlag>,
    pub focused: bool,
    pub pre_edit: Option<String>,
}

/// The container that composes its children and routes the pointer to them.
pub struct Layout;

impl Layout {
    /// Makes a layout: a widget of standard values that hovers over nothing.
    pub fn create<P: Watchers, L: Listeners<P>>(ui: &mut Caribou<P, L>) -> (widget: Widget)
        requires
            old(ui).wf(),
        ensures
            final(ui).wf(),
            widget.id == old(ui)@.nodes.len(),
            final(ui).holds(widget),
            final(ui)@ == (World {
                nodes: old(ui)@.nodes.push(
                    Node {
                        kind: Kind::Layout {
                            hovered: Seq::empty(),
                            pointer: IntPair { x: 0, y: 0 },
                        },
                        ..Caribou::<P, L>::blank()
                    },
                ),
                ..old(ui)@
            }),
            final(ui).listeners().drop_last() == old(ui).listeners(),
            final(ui).listeners().last().silent(),
            final(ui).inners().drop_last() == old(ui).inners(),
            final(ui).linkage().drop_last() == old(ui).linkage(),
            final(ui).root() == old(ui).root(),
            final(ui).placeholder() == old(ui).placeholder(),
            final(ui).instance() == old(ui).instance(),
            forall|id: int|
                id != widget.id ==> final(ui).census().lives(id) == old(ui).census().lives(id),
    {
        let widget = ui.create_widget();
        let ghost made = *ui;
        let inner = ui.widget_mut(widget);
        inner.data.set(
            Some(
                WidgetData::Layout(LayoutData { cur_hov: Vec::new(), cur_pos: IntPair::new(0, 0) }),
            ),
        );
        proof {
            ui.frame_keeps_wf(&made);
            let n = old(ui)@.nodes.len() as int;
            assert(ui.inners().drop_last() =~= old(ui).inners());
            assert(ui@.nodes =~= old(ui)@.nodes.push(
                Node {
                    kind: Kind::Layout { hovered: Seq::empty(), pointer: IntPair { x: 0, y: 0 } },
                    ..Caribou::<P, L>::blank()
                },
            )) by {
                assert forall|i: int| 0 <= i < n implies ui@.nodes[i] == old(ui)@.nodes[i] by {
                    assert(ui.inners()[i] == made.inners()[i]);
                    assert(made@.nodes[i] == old(ui)@.nodes[i]);
                }
            }
        }
        widget
    }
}

impl Layout {
    /// The layout state of `inner`, if `inner` is a layout.
    pub fn interpret<P: Watchers>(inner: &WidgetInner<P>) -> (data: Option<&LayoutData>)
        ensures
            match inner.data@ {
                Some(WidgetData::Layout(layout)) => data == Some(&layout),
                _ => data is None,
            },
    {
        match inner.data.get() {
            Some(WidgetData::Layout(layout)) => Some(layout),
            _ => None,
        }
    }
}

/// The push button.
pub struct Button;

/// The style events of a button.
#[derive(Debug, Clone, Copy, PartialEq, Eq, Structural)]
pub enum ButtonStyle {
    Normal,
    Hover,
    Pressed,
    Disabled,
}

impl Button {
    /// The extent of a new button.
    pub open spec fn initial_size() -> IntPair {
        IntPair { x: 100, y: 30 }
    }

    /// The model of a new button.
    pub open spec fn initial<P: Watchers, L: Listeners<P>>() -> Node {
        Node {
            size: Self::initial_size(),
            kind: Kind::Button { state: ButtonState::Normal, focused: false },
            ..Caribou::<P, L>::blank()
        }
    }

    /// Makes a button: 100 by 30, in its normal state, without the focus, with
    /// a caption, and entered at the end of the automatic tab order.
    pub fn create<P: Watchers, L: Listeners<P>>(ui: &mut Caribou<P, L>) -> (widget: Widget)
        requires
            old(ui).wf(),
        ensures
            final(ui).wf(),
            widget.id == old(ui)@.nodes.len(),
            final(ui).holds(widget),
            final(ui)@ == (World {
                nodes: old(ui)@.nodes.push(Self::initial::<P, L>()),
                ..old(ui)@
            }),
            final(ui).inners().last().data@ matches Some(WidgetData::Button(button))
                && button.text@@ == "\u{6309}\u{94ae}"@ && button.text.listeners().len() == 0,
            final(ui).instance().auto_tab_order@ == old(ui).instance().auto_tab_order@.push(
                widget.observer(),
            ),
            final(ui).instance().manual_tab_order == old(ui).instance().manual_tab_order,
            final(ui).instance().focused_component == old(ui).instance().focused_component,
            final(ui).instance().on_key_down == old(ui).instance().on_key_down,
            final(ui).instance().on_key_up == old(ui).instance().on_key_up,
            final(ui).instance().routing == old(ui).instance().routing,
            final(ui).listeners().drop_last() == old(ui).listeners(),
            final(ui).listeners().last().silent(),
            final(ui).inners().drop_last() == old(ui).inners(),
            final(ui).linkage().drop_last() == old(ui).linkage(),
            final(ui).root() == old(ui).root(),
            final(ui).placeholder() == old(ui).placeholder(),
            forall|id: int|
                id != widget.id ==> final(ui).census().lives(id) == old(ui).census().lives(id),
    {
        let widget = ui.create_widget();
        let ghost made = *ui;
        let back = WidgetRef { slot: Some(widget.id) };
        let inner = ui.widget_mut(widget);
        inner.size.set(IntPair::new(100, 30));
        inner.data.set(
            Some(
                WidgetData::Button(
                    ButtonData {
                        text: Property::new("\u{6309}\u{94ae}".to_owned(), back),
                        state: ButtonState::Normal,
                        focused: false,
                    },
                ),
            ),
        );
        proof {
            ui.frame_keeps_wf(&made);
        }
        ui.register_auto_tab_order(&widget);
        proof {
            let n = old(ui)@.nodes.len() as int;
            assert(ui.inners().drop_last() =~= old(ui).inners());
            assert(ui@.nodes =~= old(ui)@.nodes.push(Self::initial::<P, L>())) by {
                assert forall|i: int| 0 <= i < n implies ui@.nodes[i] == old(ui)@.nodes[i] by {
                    assert(ui.inners()[i] == made.inners()[i]);
                    assert(made@.nodes[i] == old(ui)@.nodes[i]);
                }
            }
        }
        widget
    }

    /// The button state of `inner`, if `inner` is a button.
    pub fn interpret<P: Watchers>(inner: &WidgetInner<P>) -> (data: Option<&ButtonData<P>>)
        ensures
            match inner.data@ {
                Some(WidgetData::Button(button)) => data == Some(&button),
                _ => data is None,
            },
    {
        match inner.data.get() {
            Some(WidgetData::Button(button)) => Some(button),
            _ => None,
        }
    }

    /// The style a button is drawn in: the disabled style whenever it is not
    /// enabled, whatever its state; else the style of its state.
    pub open spec fn style_of(enabled: bool, state: ButtonState) -> ButtonStyle {
        if !enabled {
            ButtonStyle::Disabled
        } else {
            match state {
                ButtonState::Normal => ButtonStyle::Normal,
                ButtonState::Hover => ButtonStyle::Hover,
                ButtonState::Pressed => ButtonStyle::Pressed,
            }
        }
    }

    pub fn style_for(enabled: bool, state: ButtonState) -> (style: ButtonStyle)
        ensures
            style == Self::style_of(enabled, state),
    {
        if !enabled {
            ButtonStyle::Disabled
        } else {
            match state {
                ButtonState::Normal => ButtonStyle::Normal,
                ButtonState::Hover => ButtonStyle::Hover,
                ButtonState::Pressed => ButtonStyle::Pressed,
            }
        }
    }
}

impl<P: Watchers> ButtonData<P> {
    pub fn state(&self) -> (state: ButtonState)
        ensures
            state == self.state,
    {
        self.state
    }

    pub fn is_focused(&self) -> (focused: bool)
        ensures
            focused == self.focused,
    {
        self.focused
    }
}

/// The colours of one stock style of a button.
#[derive(Debug, Clone, Copy, PartialEq, Eq, Structural)]
pub struct ButtonPaint {
    pub border_mat: Material,
    pub back_mat: Material,
    pub caption_mat: Material,
}

/// Whether `op` draws the outline of a button of extent `size` with `brush`:
/// a rectangle from (1, 1), smaller than the button by 2 each way.
pub open spec fn frame_op(op: BatchOp, size: IntPair, brush: Brush) -> bool {
    op matches BatchOp::Path { transform, path, brush: with } && transform
        == Transform::identity() && path@ == seq![
        PathOp::Rect(
            IntPair { x: 1, y: 1 },
            IntPair { x: clamp(size.x - 2) as i32, y: clamp(size.y - 2) as i32 },
        ),
    ] && with == brush
}

/// Whether `op` draws the caption `text` in `font`, centred on the middle of
/// a button of extent `size`, filled with `fill`.
pub open spec fn caption_op(op: BatchOp, size: IntPair, text: String, font: Font, fill: Material) -> bool {
    op matches BatchOp::Text { transform, text: shown, font: used, alignment, brush } && transform
        == Transform::moving(IntPair { x: half(size.x as int) as i32, y: half(size.y as int) as i32 })
        && shown == text && used == font && alignment == TextAlignment::Center && brush == (Brush {
        stroke_mat: Material::Transparent,
        fill_mat: fill,
        stroke_width: 1,
    })
}

impl ButtonPaint {
    pub open spec fn normal() -> ButtonPaint {
        ButtonPaint {
            border_mat: Material::Solid(242, 242, 242, 255),
            back_mat: Material::Solid(242, 242, 242, 255),
            caption_mat: Material::Solid(0, 0, 0, 255),
        }
    }

    pub open spec fn hover() -> ButtonPaint {
        ButtonPaint {
            border_mat: Material::Solid(229, 229, 229, 255),
            back_mat: Material::Solid(229, 229, 229, 255),
            caption_mat: Material::Solid(0, 0, 0, 255),
        }
    }

    pub open spec fn pressed() -> ButtonPaint {
        ButtonPaint {
            border_mat: Material::Solid(76, 76, 76, 255),
            back_mat: Material::Solid(76, 76, 76, 255),
            caption_mat: Material::Solid(255, 255, 255, 255),
        }
    }

    pub open spec fn disabled() -> ButtonPaint {
        ButtonPaint {
            border_mat: Material::Solid(242, 242, 242, 255),
            back_mat: Material::Solid(242, 242, 242, 255),
            caption_mat: Material::Solid(102, 102, 102, 255),
        }
    }

    pub fn stock_normal() -> (paint: ButtonPaint)
        ensures
            paint == Self::normal(),
    {
        ButtonPaint {
            border_mat: Material::Solid(242, 242, 242, 255),
            back_mat: Material::Solid(242, 242, 242, 255),
            caption_mat: Material::Solid(0, 0, 0, 255),
        }
    }

    pub fn stock_hover() -> (paint: ButtonPaint)
        ensures
            paint == Self::hover(),
    {
        ButtonPaint {
            border_mat: Material::Solid(229, 229, 229, 255),
            back_mat: Material::Solid(229, 229, 229, 255),
            caption_mat: Material::Solid(0, 0, 0, 255),
        }
    }

    pub fn stock_pressed() -> (paint: ButtonPaint)
        ensures
            paint == Self::pressed(),
    {
        ButtonPaint {
            border_mat: Material::Solid(76, 76, 76, 255),
            back_mat: Material::Solid(76, 76, 76, 255),
            caption_mat: Material::Solid(255, 255, 255, 255),
        }
    }

    pub fn stock_disabled() -> (paint: ButtonPaint)
        ensures
            paint == Self::disabled(),
    {
        ButtonPaint {
            border_mat: Material::Solid(242, 242, 242, 255),
            back_mat: Material::Solid(242, 242, 242, 255),
            caption_mat: Material::Solid(102, 102, 102, 255),
        }
    }

    /// The brush of the outline.
    pub open spec fn frame_brush(self) -> Brush {
        Brush { stroke_mat: self.border_mat, fill_mat: self.back_mat, stroke_width: 2 }
    }

    /// The brush of the ring that marks the holder of the focus.
    pub open spec fn ring_brush() -> Brush {
        Brush {
            stroke_mat: Material::Solid(0, 0, 0, 255),
            fill_mat: Material::Transparent,
            stroke_width: 2,
        }
    }

    /// Whether `ops` is the stock picture of `widget` in these colours: for a
    /// button its outline, a black ring over it if the button is marked
    /// focused, and its caption; for any other widget nothing.
    pub open spec fn paints<P: Watchers>(self, widget: &WidgetInner<P>, ops: Seq<BatchOp>) -> bool {
        match widget.data@ {
            Some(WidgetData::Button(button)) => if button.focused {
                &&& ops.len() == 3
                &&& frame_op(ops[0], widget.size@, self.frame_brush())
                &&& frame_op(ops[1], widget.size@, Self::ring_brush())
                &&& caption_op(ops[2], widget.size@, button.text@, widget.font@, self.caption_mat)
            } else {
                &&& ops.len() == 2
                &&& frame_op(ops[0], widget.size@, self.frame_brush())
                &&& caption_op(ops[1], widget.size@, button.text@, widget.font@, self.caption_mat)
            },
            _ => ops.len() == 0,
        }
    }

    /// Whether `listener` answers every widget with its stock picture in these colours.
    pub open spec fn painted_by<P: Watchers, D: ZeroArg<WidgetInner<P>, Batch>>(self, listener: &D) -> bool {
        forall|widget: &WidgetInner<P>, batch: Batch|
            (#[trigger] listener.responds(widget, batch)) ==> self.paints(widget, batch@)
    }

    /// The stock picture of `widget` in these colours.
    pub fn paint<P: Watchers>(&self, widget: &WidgetInner<P>) -> (batch: Batch)
        ensures
            self.paints(widget, batch@),
    {
        let mut batch = Batch::new();
        match widget.data.get() {
            Some(WidgetData::Button(button)) => {
                let size = widget.size.get_copy();
                let inset = size.shrunk(2);
                let mut outline: Vec<PathOp> = Vec::new();
                outline.push(PathOp::Rect(IntPair::new(1, 1), inset));
                batch.add_op(
                    BatchOp::Path {
                        transform: Transform::default(),
                        path: Path::from_vec(outline),
                        brush: Brush {
                            stroke_mat: self.border_mat,
                            fill_mat: self.back_mat,
                            stroke_width: 2,
                        },
                    },
                );
                if button.focused {
                    let mut ring: Vec<PathOp> = Vec::new();
                    ring.push(PathOp::Rect(IntPair::new(1, 1), inset));
                    batch.add_op(
                        BatchOp::Path {
                            transform: Transform::default(),
                            path: Path::from_vec(ring),
                            brush: Brush {
                                stroke_mat: Material::Solid(0, 0, 0, 255),
                                fill_mat: Material::Transparent,
                                stroke_width: 2,
                            },
                        },
                    );
                }
                batch.add_op(
                    BatchOp::Text {
                        transform: Transform::shift(size.halved()),
                        text: button.text.get().clone(),
                        font: widget.font.get().duplicate(),
                        alignment: TextAlignment::Center,
                        brush: Brush {
                            stroke_mat: Material::Transparent,
                            fill_mat: self.caption_mat,
                            stroke_width: 1,
                        },
                    },
                );
            },
            _ => {},
        }
        batch
    }
}

impl<P: Watchers> ZeroArg<WidgetInner<P>, Batch> for ButtonPaint {
    open spec fn responds(&self, widget: &WidgetInner<P>, result: Batch) -> bool {
        self.paints(widget, result@)
    }

    fn call(&self, widget: &WidgetInner<P>) -> (result: Batch) {
        self.paint(widget)
    }
}

/// The single-line text input.
pub struct TextField;

impl TextField {
    /// The model of a new text field.
    pub open spec fn initial<P: Watchers, L: Listeners<P>>() -> Node {
        Node {
            size: IntPair { x: 160, y: 30 },
            kind: Kind::TextField { enabled: true, focused: false },
            ..Caribou::<P, L>::blank()
        }
    }

    /// Makes a text field: 160 by 30, enabled, empty, without the focus.
    pub fn create<P: Watchers, L: Listeners<P>>(ui: &mut Caribou<P, L>) -> (widget: Widget)
        requires
            old(ui).wf(),
        ensures
            final(ui).wf(),
            widget.id == old(ui)@.nodes.len(),
            final(ui).holds(widget),
            final(ui)@ == (World {
                nodes: old(ui)@.nodes.push(Self::initial::<P, L>()),
                ..old(ui)@
            }),
            final(ui).inners().last().data@ matches Some(WidgetData::TextField(field))
                && field.text@@ == Seq::<char>::empty() && field.pre_edit is None
                && field.text.listeners().len() == 0 && field.enabled.listeners().len() == 0,
            final(ui).instance() == old(ui).instance(),
            final(ui).listeners().drop_last() == old(ui).listeners(),
            final(ui).listeners().last().silent(),
            final(ui).inners().drop_last() == old(ui).inners(),
            final(ui).linkage().drop_last() == old(ui).linkage(),
            final(ui).root() == old(ui).root(),
            final(ui).placeholder() == old(ui).placeholder(),
            forall|id: int|
                id != widget.id ==> final(ui).census().lives(id) == old(ui).census().lives(id),
    {
        let widget = ui.create_widget();
        let ghost made = *ui;
        let back = WidgetRef { slot: Some(widget.id) };
        let inner = ui.widget_mut(widget);
        inner.size.set(IntPair::new(160, 30));
        inner.data.set(
            Some(
                WidgetData::TextField(
                    TextFieldData {
                        text: Property::new(String::new(), back),
                        enabled: Property::new(true, back),
                        focused: false,
                        pre_edit: None,
                    },
                ),
            ),
        );
        proof {
            ui.frame_keeps_wf(&made);
            let n = old(ui)@.nodes.len() as int;
            assert(ui.inners().drop_last() =~= old(ui).inners());
            assert(ui@.nodes =~= old(ui)@.nodes.push(Self::initial::<P, L>())) by {
                assert forall|i: int| 0 <= i < n implies ui@.nodes[i] == old(ui)@.nodes[i] by {
                    assert(ui.inners()[i] == made.inners()[i]);
                    assert(made@.nodes[i] == old(ui)@.nodes[i]);
                }
            }
        }
        widget
    }

    /// The text field state of `inner`, if `inner` is a text field.
    pub fn interpret<P: Watchers>(inner: &WidgetInner<P>) -> (data: Option<&TextFieldData<P>>)
        ensures
            match inner.data@ {
                Some(WidgetData::TextField(field)) => data == Some(&field),
                _ => data is None,
            },
    {
        match inner.data.get() {
            Some(WidgetData::TextField(field)) => Some(field),
            _ => None,
        }
    }
}

/// The state of the flavor that `data` holds, as the model sees it.
pub open spec fn kind_of<P: Watchers>(data: Option<WidgetData<P>>) -> Kind {
    match data {
        None => Kind::Plain,
        Some(WidgetData::Layout(layout)) => Kind::Layout {
            hovered: layout.cur_hov@,
            pointer: layout.cur_pos,
        },
        Some(WidgetData::Button(button)) => Kind::Button {
            state: button.state,
            focused: button.focused,
        },
        Some(WidgetData::TextField(field)) => Kind::TextField {
            enabled: field.enabled@,
            focused: field.focused,
        },
    }
}

/// Whether `a` and `b` are of one flavor and differ at most in what the
/// flavor's reactions change: the hover set and the pointer of a layout, the
/// state and the focus mark of a button, the focus mark of a text field.
pub open spec fn same_but_state<P: Watchers>(
    a: Option<WidgetData<P>>,
    b: Option<WidgetData<P>>,
) -> bool {
    match a {
        None => b is None,
        Some(WidgetData::Layout(_)) => b matches Some(WidgetData::Layout(_)),
        Some(WidgetData::Button(x)) => b matches Some(WidgetData::Button(y)) && x.text == y.text,
        Some(WidgetData::TextField(x)) => b matches Some(WidgetData::TextField(y)) && x.text
            == y.text && x.enabled == y.enabled && x.pre_edit == y.pre_edit,
    }
}

/// A widget as the model sees it.
pub open spec fn node_of<P: Watchers>(inner: WidgetInner<P>, links: Links<P>, alive: bool) -> Node {
    Node {
        alive,
        position: inner.position@,
        size: inner.size@,
        enabled: inner.enabled@,
        children: links.children(),
        kind: kind_of(inner.data@),
    }
}

} // verus!
