use caribou::boxed::{Boxed, Respond, RespondWith, Toolkit};
use caribou::event::{SingleArgFn, ZeroArgFn};
use caribou::handle::{Widget, WidgetRef, WidgetRefer};
use caribou::math::IntPair;
use caribou::model::{Delivery, Signal};
use caribou::widget::WidgetInner;
use caribou::widgets::{Layout, WidgetData};
use std::cell::RefCell;
use std::rc::Rc;

type Log = Rc<RefCell<Vec<String>>>;

fn place(ui: &mut Toolkit, widget: Widget, x: i32, y: i32, w: i32, h: i32) {
    let inner = ui.widget_mut(widget);
    inner.position.set(IntPair::new(x, y));
    inner.size.set(IntPair::new(w, h));
}

/// Subscribes recording listeners to the pointer events of `widget`.
fn watch(ui: &mut Toolkit, widget: Widget, name: &'static str, log: &Log) {
    let events = ui.events_mut(widget);
    let l = log.clone();
    events.on_mouse_enter.subscribe(Respond::new(ZeroArgFn::new(move |_w: &WidgetInner<Boxed>| {
        l.borrow_mut().push(format!("{} enter", name));
    })));
    let l = log.clone();
    events.on_mouse_leave.subscribe(Respond::new(ZeroArgFn::new(move |_w: &WidgetInner<Boxed>| {
        l.borrow_mut().push(format!("{} leave", name));
    })));
    let l = log.clone();
    events.on_mouse_move.subscribe(RespondWith::new(SingleArgFn::new(
        move |_w: &WidgetInner<Boxed>, p: &IntPair| {
            l.borrow_mut().push(format!("{} move {} {}", name, p.x, p.y));
        },
    )));
    let l = log.clone();
    events.on_primary_down.subscribe(Respond::new(ZeroArgFn::new(move |_w: &WidgetInner<Boxed>| {
        l.borrow_mut().push(format!("{} down", name));
    })));
    let l = log.clone();
    events.on_primary_up.subscribe(Respond::new(ZeroArgFn::new(move |_w: &WidgetInner<Boxed>| {
        l.borrow_mut().push(format!("{} up", name));
    })));
}

fn hovered(ui: &Toolkit, layout: Widget) -> Vec<WidgetRef> {
    match ui.widget(layout).data.get() {
        Some(WidgetData::Layout(data)) => data.cur_hov.clone(),
        _ => panic!("not a layout"),
    }
}

fn taken(log: &Log) -> Vec<String> {
    log.borrow_mut().drain(..).collect()
}

fn moved(ui: &mut Toolkit, target: Widget, x: i32, y: i32) -> Vec<Delivery> {
    ui.dispatch(target, Signal::MouseMove(IntPair::new(x, y)))
}

#[test]
fn new_layout_hovers_over_nothing() {
    let mut ui = Toolkit::new();
    let layout = Layout::create(&mut ui);
    assert!(ui.is_alive(&layout));
    assert_eq!(hovered(&ui, layout), vec![]);
    let data = Layout::interpret(ui.widget(layout)).unwrap();
    assert_eq!(data.cur_pos, IntPair::new(0, 0));
    assert_eq!(*ui.widget(layout).size.get(), IntPair::new(0, 0));
    assert!(*ui.widget(layout).enabled.get());
}

#[test]
fn hover_is_half_open() {
    let mut ui = Toolkit::new();
    let root = ui.root_component();
    let child = ui.create_widget();
    place(&mut ui, child, 10, 10, 20, 20);
    ui.push_child(root, child);
    moved(&mut ui, root, 10, 10);
    assert_eq!(hovered(&ui, root), vec![child.refer()]);
    moved(&mut ui, root, 29, 29);
    assert_eq!(hovered(&ui, root), vec![child.refer()]);
    moved(&mut ui, root, 30, 30);
    assert_eq!(hovered(&ui, root), vec![]);
    moved(&mut ui, root, 9, 9);
    assert_eq!(hovered(&ui, root), vec![]);
    moved(&mut ui, root, 29, 30);
    assert_eq!(hovered(&ui, root), vec![]);
    moved(&mut ui, root, 10, 29);
    assert_eq!(hovered(&ui, root), vec![child.refer()]);
}

#[test]
fn hover_transitions_enter_move_leave() {
    let mut ui = Toolkit::new();
    let root = ui.root_component();
    let c = ui.create_widget();
    place(&mut ui, c, 0, 0, 50, 50);
    ui.push_child(root, c);
    let log: Log = Rc::new(RefCell::new(Vec::new()));
    watch(&mut ui, c, "c", &log);

    let trace = moved(&mut ui, root, 100, 100);
    assert_eq!(taken(&log), Vec::<String>::new());
    assert_eq!(
        trace,
        vec![Delivery { target: root, signal: Signal::MouseMove(IntPair::new(100, 100)) }]
    );

    let trace = moved(&mut ui, root, 10, 10);
    assert_eq!(taken(&log), vec!["c enter"]);
    assert_eq!(
        trace,
        vec![
            Delivery { target: c, signal: Signal::MouseEnter },
            Delivery { target: root, signal: Signal::MouseMove(IntPair::new(10, 10)) },
        ]
    );

    let trace = moved(&mut ui, root, 20, 20);
    assert_eq!(taken(&log), vec!["c move 20 20"]);
    assert_eq!(
        trace,
        vec![
            Delivery { target: c, signal: Signal::MouseMove(IntPair::new(20, 20)) },
            Delivery { target: root, signal: Signal::MouseMove(IntPair::new(20, 20)) },
        ]
    );

    let trace = moved(&mut ui, root, 200, 200);
    assert_eq!(taken(&log), vec!["c leave"]);
    assert_eq!(
        trace,
        vec![
            Delivery { target: c, signal: Signal::MouseLeave },
            Delivery { target: root, signal: Signal::MouseMove(IntPair::new(200, 200)) },
        ]
    );
    assert_eq!(hovered(&ui, root), vec![]);
}

#[test]
fn move_is_reported_in_the_coordinates_of_the_child() {
    let mut ui = Toolkit::new();
    let root = ui.root_component();
    let c = ui.create_widget();
    place(&mut ui, c, 30, 40, 100, 100);
    ui.push_child(root, c);
    let log: Log = Rc::new(RefCell::new(Vec::new()));
    watch(&mut ui, c, "c", &log);
    moved(&mut ui, root, 30, 40);
    moved(&mut ui, root, 35, 47);
    assert_eq!(taken(&log), vec!["c enter", "c move 5 7"]);
}

#[test]
fn the_layout_remembers_the_pointer() {
    let mut ui = Toolkit::new();
    let root = ui.root_component();
    moved(&mut ui, root, 12, 34);
    assert_eq!(Layout::interpret(ui.widget(root)).unwrap().cur_pos, IntPair::new(12, 34));
}

#[test]
fn children_are_served_in_child_order_and_leaves_come_last() {
    let mut ui = Toolkit::new();
    let root = ui.root_component();
    let a = ui.create_widget();
    let b = ui.create_widget();
    let c = ui.create_widget();
    place(&mut ui, a, 0, 0, 10, 10);
    place(&mut ui, b, 5, 5, 10, 10);
    place(&mut ui, c, 8, 8, 10, 10);
    ui.push_child(root, a);
    ui.push_child(root, b);
    ui.push_child(root, c);
    let log: Log = Rc::new(RefCell::new(Vec::new()));
    watch(&mut ui, a, "a", &log);
    watch(&mut ui, b, "b", &log);
    watch(&mut ui, c, "c", &log);
    moved(&mut ui, root, 6, 6);
    assert_eq!(taken(&log), vec!["a enter", "b enter"]);
    assert_eq!(hovered(&ui, root), vec![a.refer(), b.refer()]);
    moved(&mut ui, root, 12, 12);
    assert_eq!(taken(&log), vec!["b move 7 7", "c enter", "a leave"]);
    assert_eq!(hovered(&ui, root), vec![b.refer(), c.refer()]);
}

#[test]
fn down_without_move_reaches_no_child() {
    let mut ui = Toolkit::new();
    let root = ui.root_component();
    let c = ui.create_widget();
    place(&mut ui, c, 0, 0, 50, 50);
    ui.push_child(root, c);
    let log: Log = Rc::new(RefCell::new(Vec::new()));
    watch(&mut ui, c, "c", &log);
    watch(&mut ui, root, "root", &log);
    let trace = ui.dispatch(root, Signal::PrimaryDown);
    assert_eq!(trace, vec![Delivery { target: root, signal: Signal::PrimaryDown }]);
    let trace = ui.dispatch(root, Signal::PrimaryUp);
    assert_eq!(trace, vec![Delivery { target: root, signal: Signal::PrimaryUp }]);
    assert_eq!(taken(&log), vec!["root down", "root up"]);
}

#[test]
fn down_and_up_go_to_the_hovered_children() {
    let mut ui = Toolkit::new();
    let root = ui.root_component();
    let a = ui.create_widget();
    let b = ui.create_widget();
    place(&mut ui, a, 0, 0, 10, 10);
    place(&mut ui, b, 20, 0, 10, 10);
    ui.push_child(root, a);
    ui.push_child(root, b);
    let log: Log = Rc::new(RefCell::new(Vec::new()));
    watch(&mut ui, a, "a", &log);
    watch(&mut ui, b, "b", &log);
    moved(&mut ui, root, 25, 5);
    taken(&log);
    ui.dispatch(root, Signal::PrimaryDown);
    ui.dispatch(root, Signal::PrimaryUp);
    assert_eq!(taken(&log), vec!["b down", "b up"]);
}

#[test]
fn leave_goes_to_every_hovered_child_and_empties_the_set() {
    let mut ui = Toolkit::new();
    let root = ui.root_component();
    let a = ui.create_widget();
    let b = ui.create_widget();
    place(&mut ui, a, 0, 0, 10, 10);
    place(&mut ui, b, 5, 5, 10, 10);
    ui.push_child(root, a);
    ui.push_child(root, b);
    let log: Log = Rc::new(RefCell::new(Vec::new()));
    watch(&mut ui, a, "a", &log);
    watch(&mut ui, b, "b", &log);
    moved(&mut ui, root, 6, 6);
    taken(&log);
    let trace = ui.dispatch(root, Signal::MouseLeave);
    assert_eq!(taken(&log), vec!["a leave", "b leave"]);
    assert_eq!(
        trace,
        vec![
            Delivery { target: a, signal: Signal::MouseLeave },
            Delivery { target: b, signal: Signal::MouseLeave },
            Delivery { target: root, signal: Signal::MouseLeave },
        ]
    );
    assert_eq!(hovered(&ui, root), vec![]);
}

#[test]
fn nested_layouts_pass_the_pointer_down() {
    let mut ui = Toolkit::new();
    let root = ui.root_component();
    let panel = Layout::create(&mut ui);
    let leaf = ui.create_widget();
    place(&mut ui, panel, 100, 100, 200, 200);
    place(&mut ui, leaf, 10, 10, 20, 20);
    ui.push_child(root, panel);
    ui.push_child(panel, leaf);
    let log: Log = Rc::new(RefCell::new(Vec::new()));
    watch(&mut ui, panel, "panel", &log);
    watch(&mut ui, leaf, "leaf", &log);
    moved(&mut ui, root, 115, 115);
    assert_eq!(taken(&log), vec!["panel enter"]);
    assert_eq!(hovered(&ui, panel), vec![]);
    moved(&mut ui, root, 116, 117);
    assert_eq!(taken(&log), vec!["leaf enter", "panel move 16 17"]);
    assert_eq!(hovered(&ui, panel), vec![leaf.refer()]);
    ui.dispatch(root, Signal::PrimaryDown);
    assert_eq!(taken(&log), vec!["leaf down", "panel down"]);
    moved(&mut ui, root, 0, 0);
    assert_eq!(taken(&log), vec!["leaf leave", "panel leave"]);
    assert_eq!(hovered(&ui, panel), vec![]);
    assert_eq!(hovered(&ui, root), vec![]);
}

#[test]
fn a_destroyed_child_is_purged_from_the_hover_set() {
    let mut ui = Toolkit::new();
    let root = ui.root_component();
    let a = ui.create_widget();
    let b = ui.create_widget();
    place(&mut ui, a, 0, 0, 10, 10);
    place(&mut ui, b, 0, 0, 10, 10);
    ui.push_child(root, a);
    ui.push_child(root, b);
    moved(&mut ui, root, 5, 5);
    assert_eq!(hovered(&ui, root), vec![a.refer(), b.refer()]);
    // While the layout owns it, the child cannot be destroyed.
    assert!(!ui.destroy(a));
    assert!(ui.is_alive(&a));
    assert_eq!(ui.remove_child(root, 0), a);
    assert!(ui.destroy(a));
    assert!(!ui.is_alive(&a));
    // The dead entry is still in the set, until the next pointer signal.
    assert_eq!(hovered(&ui, root), vec![a.refer(), b.refer()]);
    let trace = ui.dispatch(root, Signal::PrimaryDown);
    assert_eq!(
        trace,
        vec![
            Delivery { target: b, signal: Signal::PrimaryDown },
            Delivery { target: root, signal: Signal::PrimaryDown },
        ]
    );
    assert_eq!(hovered(&ui, root), vec![b.refer()]);
}

#[test]
fn a_destroyed_child_gets_no_leave() {
    let mut ui = Toolkit::new();
    let root = ui.root_component();
    let a = ui.create_widget();
    place(&mut ui, a, 0, 0, 10, 10);
    ui.push_child(root, a);
    moved(&mut ui, root, 5, 5);
    ui.clear_children(root);
    assert!(ui.destroy(a));
    let trace = moved(&mut ui, root, 50, 50);
    assert_eq!(
        trace,
        vec![Delivery { target: root, signal: Signal::MouseMove(IntPair::new(50, 50)) }]
    );
    assert_eq!(hovered(&ui, root), vec![]);
    let trace = ui.dispatch(root, Signal::MouseLeave);
    assert_eq!(trace, vec![Delivery { target: root, signal: Signal::MouseLeave }]);
}

#[test]
fn a_signal_to_a_dead_widget_does_nothing() {
    let mut ui = Toolkit::new();
    let a = ui.create_widget();
    assert!(ui.destroy(a));
    assert_eq!(ui.dispatch(a, Signal::PrimaryDown), vec![]);
    assert_eq!(ui.dispatch(Widget { id: 999 }, Signal::PrimaryDown), vec![]);
}

#[test]
fn a_cycle_of_layouts_comes_to_an_end() {
    let mut ui = Toolkit::new();
    let a = Layout::create(&mut ui);
    let b = Layout::create(&mut ui);
    place(&mut ui, a, 0, 0, 100, 100);
    place(&mut ui, b, 0, 0, 100, 100);
    ui.push_child(a, b);
    ui.push_child(b, a);
    moved(&mut ui, a, 5, 5);
    let trace = moved(&mut ui, a, 6, 6);
    assert!(!trace.is_empty());
}
