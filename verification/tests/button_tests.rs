use caribou::batch::{Batch, BatchOp, Brush, Material, PathOp, TextAlignment};
use caribou::boxed::{Boxed, Respond, RespondWith, Toolkit};
use caribou::event::{SingleArgFn, ZeroArgFn};
use caribou::handle::{Widget, WidgetRef, WidgetRefer};
use caribou::input::{Key, KeyEvent};
use caribou::math::IntPair;
use caribou::model::{Delivery, Signal};
use caribou::widget::WidgetInner;
use caribou::widgets::{Button, ButtonPaint, ButtonState, ButtonStyle, TextField, WidgetData};
use std::cell::RefCell;
use std::rc::Rc;

fn state(ui: &Toolkit, button: Widget) -> ButtonState {
    Button::interpret(ui.widget(button)).unwrap().state()
}

fn count_actions(ui: &mut Toolkit, button: Widget) -> Rc<RefCell<Vec<u64>>> {
    let seen: Rc<RefCell<Vec<u64>>> = Rc::new(RefCell::new(Vec::new()));
    let s = seen.clone();
    ui.events_mut(button).action.subscribe(RespondWith::new(SingleArgFn::new(
        move |_w: &WidgetInner<Boxed>, payload: &u64| {
            s.borrow_mut().push(*payload);
        },
    )));
    seen
}

#[test]
fn new_button() {
    let mut ui = Toolkit::new();
    let b = Button::create(&mut ui);
    assert_eq!(*ui.widget(b).size.get(), IntPair::new(100, 30));
    assert_eq!(*ui.widget(b).position.get(), IntPair::new(0, 0));
    assert!(*ui.widget(b).enabled.get());
    let data = Button::interpret(ui.widget(b)).unwrap();
    assert_eq!(data.state(), ButtonState::Normal);
    assert!(!data.is_focused());
    assert_eq!(*data.text.get(), "\u{6309}\u{94ae}");
    assert_eq!(ui.instance_ref().auto_tab_order, vec![b.refer()]);
    assert!(Button::interpret(ui.widget(ui.root_component())).is_none());
}

#[test]
fn pointer_drives_the_state() {
    let mut ui = Toolkit::new();
    let b = Button::create(&mut ui);
    ui.dispatch(b, Signal::MouseEnter);
    assert_eq!(state(&ui, b), ButtonState::Hover);
    assert!(ui.take_redraw_request());
    ui.dispatch(b, Signal::PrimaryDown);
    assert_eq!(state(&ui, b), ButtonState::Pressed);
    assert!(ui.take_redraw_request());
    assert_eq!(*ui.instance_ref().focused_component.get(), b.refer());
    ui.dispatch(b, Signal::PrimaryUp);
    assert_eq!(state(&ui, b), ButtonState::Hover);
    assert!(ui.take_redraw_request());
    ui.dispatch(b, Signal::MouseLeave);
    assert_eq!(state(&ui, b), ButtonState::Normal);
    assert!(ui.take_redraw_request());
    ui.dispatch(b, Signal::MouseMove(IntPair::new(1, 1)));
    assert_eq!(state(&ui, b), ButtonState::Normal);
    assert!(!ui.take_redraw_request());
}

#[test]
fn an_enabled_button_fires_its_action_once_per_click() {
    let mut ui = Toolkit::new();
    let b = Button::create(&mut ui);
    let seen = count_actions(&mut ui, b);
    let down = ui.dispatch(b, Signal::PrimaryDown);
    let up = ui.dispatch(b, Signal::PrimaryUp);
    assert_eq!(*seen.borrow(), vec![0]);
    assert_eq!(down, vec![Delivery { target: b, signal: Signal::PrimaryDown }]);
    assert_eq!(
        up,
        vec![
            Delivery { target: b, signal: Signal::Action(0) },
            Delivery { target: b, signal: Signal::PrimaryUp },
        ]
    );
}

#[test]
fn a_disabled_button_fires_no_action() {
    let mut ui = Toolkit::new();
    let b = Button::create(&mut ui);
    ui.widget_mut(b).enabled.set(false);
    let seen = count_actions(&mut ui, b);
    let down = ui.dispatch(b, Signal::PrimaryDown);
    let up = ui.dispatch(b, Signal::PrimaryUp);
    assert_eq!(*seen.borrow(), Vec::<u64>::new());
    assert_eq!(down, vec![Delivery { target: b, signal: Signal::PrimaryDown }]);
    assert_eq!(up, vec![Delivery { target: b, signal: Signal::PrimaryUp }]);
    // It still changes state, takes the focus slot and asks to be drawn again.
    assert_eq!(state(&ui, b), ButtonState::Hover);
    assert_eq!(*ui.instance_ref().focused_component.get(), b.refer());
    assert!(ui.take_redraw_request());
}

#[test]
fn a_click_through_the_layout_fires_the_action() {
    let mut ui = Toolkit::new();
    let root = ui.root_component();
    let b = Button::create(&mut ui);
    ui.widget_mut(b).position.set(IntPair::new(50, 20));
    ui.push_child(root, b);
    let seen = count_actions(&mut ui, b);
    ui.dispatch(root, Signal::PrimaryDown);
    ui.dispatch(root, Signal::PrimaryUp);
    assert_eq!(*seen.borrow(), Vec::<u64>::new());
    ui.dispatch(root, Signal::MouseMove(IntPair::new(60, 25)));
    ui.dispatch(root, Signal::PrimaryDown);
    ui.dispatch(root, Signal::PrimaryUp);
    assert_eq!(*seen.borrow(), vec![0]);
}

#[test]
fn activating_keys_press_the_button() {
    for key in [Key::Return, Key::Space, Key::NumpadEnter] {
        let mut ui = Toolkit::new();
        let b = Button::create(&mut ui);
        let seen = count_actions(&mut ui, b);
        ui.dispatch(b, Signal::KeyDown(KeyEvent::plain(key)));
        assert_eq!(state(&ui, b), ButtonState::Pressed);
        assert!(ui.take_redraw_request());
        assert_eq!(*seen.borrow(), Vec::<u64>::new());
        let up = ui.dispatch(b, Signal::KeyUp(KeyEvent::plain(key)));
        assert_eq!(state(&ui, b), ButtonState::Normal);
        assert!(ui.take_redraw_request());
        assert_eq!(*seen.borrow(), vec![0]);
        assert_eq!(
            up,
            vec![
                Delivery { target: b, signal: Signal::Action(0) },
                Delivery { target: b, signal: Signal::KeyUp(KeyEvent::plain(key)) },
            ]
        );
    }
}

#[test]
fn other_keys_leave_the_button_alone() {
    let mut ui = Toolkit::new();
    let b = Button::create(&mut ui);
    let seen = count_actions(&mut ui, b);
    ui.dispatch(b, Signal::KeyDown(KeyEvent::plain(Key::Escape)));
    ui.dispatch(b, Signal::KeyUp(KeyEvent::plain(Key::Other(65))));
    assert_eq!(state(&ui, b), ButtonState::Normal);
    assert!(!ui.take_redraw_request());
    assert_eq!(*seen.borrow(), Vec::<u64>::new());
}

#[test]
fn the_keyboard_fires_the_action_of_a_disabled_button_too() {
    let mut ui = Toolkit::new();
    let b = Button::create(&mut ui);
    ui.widget_mut(b).enabled.set(false);
    let seen = count_actions(&mut ui, b);
    ui.dispatch(b, Signal::KeyDown(KeyEvent::plain(Key::Return)));
    ui.dispatch(b, Signal::KeyUp(KeyEvent::plain(Key::Return)));
    assert_eq!(*seen.borrow(), vec![0]);
}

#[test]
fn style_follows_state_unless_disabled() {
    assert_eq!(Button::style_for(true, ButtonState::Normal), ButtonStyle::Normal);
    assert_eq!(Button::style_for(true, ButtonState::Hover), ButtonStyle::Hover);
    assert_eq!(Button::style_for(true, ButtonState::Pressed), ButtonStyle::Pressed);
    assert_eq!(Button::style_for(false, ButtonState::Normal), ButtonStyle::Disabled);
    assert_eq!(Button::style_for(false, ButtonState::Hover), ButtonStyle::Disabled);
    assert_eq!(Button::style_for(false, ButtonState::Pressed), ButtonStyle::Disabled);
}

fn mark(label: &'static str) -> Respond<WidgetInner<Boxed>, Batch> {
    Respond::new(ZeroArgFn::new(move |_w: &WidgetInner<Boxed>| {
        let mut batch = Batch::new();
        batch.add_op(BatchOp::Text {
            transform: Default::default(),
            text: label.to_string(),
            font: Default::default(),
            alignment: TextAlignment::Origin,
            brush: Brush::default(),
        });
        batch
    }))
}

fn marks(batches: &[Batch]) -> Vec<Vec<String>> {
    batches
        .iter()
        .map(|b| {
            b.data()
                .iter()
                .map(|op| match op {
                    BatchOp::Text { text, .. } => text.clone(),
                    _ => String::from("?"),
                })
                .collect()
        })
        .collect()
}

fn marked_button(ui: &mut Toolkit) -> Widget {
    let b = Button::create(ui);
    let styles = &mut ui.events_mut(b).styles;
    styles.draw_normal.subscribe(mark("normal"));
    styles.draw_hover.subscribe(mark("hover"));
    styles.draw_pressed.subscribe(mark("pressed"));
    styles.draw_disabled.subscribe(mark("disabled"));
    b
}

#[test]
fn the_button_is_drawn_in_the_style_of_its_state() {
    let mut ui = Toolkit::new();
    let b = marked_button(&mut ui);
    assert_eq!(marks(&ui.draw(b)), vec![vec!["normal"]]);
    ui.dispatch(b, Signal::MouseEnter);
    assert_eq!(marks(&ui.draw(b)), vec![vec!["hover"]]);
    ui.dispatch(b, Signal::PrimaryDown);
    assert_eq!(marks(&ui.draw(b)), vec![vec!["pressed"]]);
}

#[test]
fn a_disabled_button_is_drawn_disabled_in_every_state() {
    let mut ui = Toolkit::new();
    let b = marked_button(&mut ui);
    ui.widget_mut(b).enabled.set(false);
    assert_eq!(state(&ui, b), ButtonState::Normal);
    assert_eq!(marks(&ui.draw(b)), vec![vec!["disabled"]]);
    ui.dispatch(b, Signal::MouseEnter);
    assert_eq!(state(&ui, b), ButtonState::Hover);
    assert_eq!(marks(&ui.draw(b)), vec![vec!["disabled"]]);
    ui.dispatch(b, Signal::PrimaryDown);
    assert_eq!(state(&ui, b), ButtonState::Pressed);
    assert_eq!(marks(&ui.draw(b)), vec![vec!["disabled"]]);
}

#[test]
fn the_answers_of_a_style_are_consolidated_and_draw_listeners_follow() {
    let mut ui = Toolkit::new();
    let b = marked_button(&mut ui);
    ui.events_mut(b).styles.draw_normal.subscribe(mark("more"));
    ui.events_mut(b).on_draw.subscribe(mark("extra"));
    assert_eq!(marks(&ui.draw(b)), vec![vec!["normal", "more"], vec!["extra"]]);
}

#[test]
fn a_button_without_style_draws_an_empty_batch() {
    let mut ui = Toolkit::new();
    let b = Button::create(&mut ui);
    assert_eq!(marks(&ui.draw(b)), vec![Vec::<String>::new()]);
}

fn is_frame(op: &BatchOp, size: IntPair, brush: Brush) -> bool {
    match op {
        BatchOp::Path { transform, path, brush: with } => {
            *transform == Default::default()
                && *path.data() == vec![PathOp::Rect(IntPair::new(1, 1), size)]
                && *with == brush
        }
        _ => false,
    }
}

fn caption_fill(op: &BatchOp) -> (String, IntPair, Material, TextAlignment, String, i32) {
    match op {
        BatchOp::Text { transform, text, font, alignment, brush } => {
            assert_eq!(brush.stroke_mat, Material::Transparent);
            assert_eq!(brush.stroke_width, 1);
            assert_eq!(transform.clip_size, None);
            (text.clone(), transform.translate, brush.fill_mat, *alignment, font.family.clone(), font.size)
        }
        _ => panic!("not a caption"),
    }
}

#[test]
fn the_stock_style_draws_outline_and_caption() {
    let mut ui = Toolkit::new();
    let b = Button::create(&mut ui);
    ui.events_mut(b).styles.apply_default_style();
    let grey = Material::Solid(242, 242, 242, 255);
    let batches = ui.draw(b);
    assert_eq!(batches.len(), 1);
    let ops = batches[0].data();
    assert_eq!(ops.len(), 2);
    assert!(is_frame(
        &ops[0],
        IntPair::new(98, 28),
        Brush { stroke_mat: grey, fill_mat: grey, stroke_width: 2 }
    ));
    assert_eq!(
        caption_fill(&ops[1]),
        (
            String::from("\u{6309}\u{94ae}"),
            IntPair::new(50, 15),
            Material::Solid(0, 0, 0, 255),
            TextAlignment::Center,
            String::from("DengXian"),
            12
        )
    );
}

#[test]
fn the_stock_style_has_its_colours_for_each_state() {
    let mut ui = Toolkit::new();
    let b = Button::create(&mut ui);
    ui.events_mut(b).styles.apply_default_style();
    ui.dispatch(b, Signal::MouseEnter);
    let hover = Material::Solid(229, 229, 229, 255);
    let batches = ui.draw(b);
    assert!(is_frame(
        &batches[0].data()[0],
        IntPair::new(98, 28),
        Brush { stroke_mat: hover, fill_mat: hover, stroke_width: 2 }
    ));
    assert_eq!(caption_fill(&batches[0].data()[1]).2, Material::Solid(0, 0, 0, 255));
    ui.dispatch(b, Signal::KeyDown(KeyEvent::plain(Key::Space)));
    let dark = Material::Solid(76, 76, 76, 255);
    let batches = ui.draw(b);
    assert!(is_frame(
        &batches[0].data()[0],
        IntPair::new(98, 28),
        Brush { stroke_mat: dark, fill_mat: dark, stroke_width: 2 }
    ));
    assert_eq!(caption_fill(&batches[0].data()[1]).2, Material::Solid(255, 255, 255, 255));
    ui.widget_mut(b).enabled.set(false);
    let grey = Material::Solid(242, 242, 242, 255);
    let batches = ui.draw(b);
    assert!(is_frame(
        &batches[0].data()[0],
        IntPair::new(98, 28),
        Brush { stroke_mat: grey, fill_mat: grey, stroke_width: 2 }
    ));
    assert_eq!(caption_fill(&batches[0].data()[1]).2, Material::Solid(102, 102, 102, 255));
}

#[test]
fn the_stock_style_rings_the_holder_of_the_focus() {
    let mut ui = Toolkit::new();
    let b = Button::create(&mut ui);
    ui.events_mut(b).styles.apply_default_style();
    ui.widget_mut(b).size.set(IntPair::new(41, 21));
    assert_eq!(ui.gain_focus(b), vec![true]);
    let batches = ui.draw(b);
    let ops = batches[0].data();
    assert_eq!(ops.len(), 3);
    assert!(is_frame(
        &ops[1],
        IntPair::new(39, 19),
        Brush {
            stroke_mat: Material::Solid(0, 0, 0, 255),
            fill_mat: Material::Transparent,
            stroke_width: 2
        }
    ));
    assert_eq!(caption_fill(&ops[2]).1, IntPair::new(20, 10));
}

#[test]
fn the_stock_paint_draws_nothing_for_other_widgets() {
    let mut ui = Toolkit::new();
    let plain = ui.create_widget();
    let paint = ButtonPaint::stock_normal();
    assert_eq!(paint.paint(ui.widget(plain)).data().len(), 0);
    assert_eq!(
        ButtonPaint::stock_pressed(),
        ButtonPaint {
            border_mat: Material::Solid(76, 76, 76, 255),
            back_mat: Material::Solid(76, 76, 76, 255),
            caption_mat: Material::Solid(255, 255, 255, 255),
        }
    );
}

#[test]
fn new_text_field() {
    let mut ui = Toolkit::new();
    let t = TextField::create(&mut ui);
    assert_eq!(*ui.widget(t).size.get(), IntPair::new(160, 30));
    let data = TextField::interpret(ui.widget(t)).unwrap();
    assert_eq!(*data.text.get(), "");
    assert!(*data.enabled.get());
    assert!(!data.focused);
    assert_eq!(data.pre_edit, None);
    // A text field does not enter the tab order by itself.
    assert_eq!(ui.instance_ref().auto_tab_order, vec![]);
    assert!(TextField::interpret(ui.widget(ui.root_component())).is_none());
}

fn set_field_enabled(ui: &mut Toolkit, field: Widget, enabled: bool) {
    match ui.widget_mut(field).data.get_mut() {
        Some(WidgetData::TextField(data)) => data.enabled.set(enabled),
        _ => panic!("not a text field"),
    }
}

#[test]
fn a_press_gives_an_enabled_text_field_the_focus() {
    let mut ui = Toolkit::new();
    let t = TextField::create(&mut ui);
    ui.dispatch(t, Signal::PrimaryDown);
    assert_eq!(*ui.instance_ref().focused_component.get(), t.refer());
    assert!(!ui.take_redraw_request());
}

#[test]
fn a_press_gives_a_disabled_text_field_nothing() {
    let mut ui = Toolkit::new();
    let t = TextField::create(&mut ui);
    set_field_enabled(&mut ui, t, false);
    ui.dispatch(t, Signal::PrimaryDown);
    assert_eq!(*ui.instance_ref().focused_component.get(), WidgetRef { slot: None });
}

#[test]
fn a_text_field_is_drawn_focused_or_unfocused() {
    let mut ui = Toolkit::new();
    let t = TextField::create(&mut ui);
    let styles = &mut ui.events_mut(t).styles;
    styles.draw_unfocused.subscribe(mark("unfocused"));
    styles.draw_focused.subscribe(mark("focused"));
    styles.draw_disabled.subscribe(mark("disabled"));
    assert_eq!(marks(&ui.draw(t)), vec![vec!["unfocused"]]);
    assert_eq!(ui.gain_focus(t), vec![true]);
    assert_eq!(marks(&ui.draw(t)), vec![vec!["focused"]]);
    assert_eq!(ui.lose_focus(t), vec![true]);
    assert_eq!(marks(&ui.draw(t)), vec![vec!["unfocused"]]);
    set_field_enabled(&mut ui, t, false);
    assert_eq!(ui.gain_focus(t), vec![false]);
    assert_eq!(marks(&ui.draw(t)), vec![vec!["unfocused"]]);
}
