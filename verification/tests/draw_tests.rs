use caribou::batch::{Batch, BatchOp, Brush, TextAlignment, Transform};
use caribou::boxed::{Boxed, Respond, Toolkit};
use caribou::event::ZeroArgFn;
use caribou::handle::Widget;
use caribou::math::IntPair;
use caribou::widget::WidgetInner;
use caribou::widgets::Layout;

fn mark(label: &'static str) -> Respond<WidgetInner<Boxed>, Batch> {
    Respond::new(ZeroArgFn::new(move |w: &WidgetInner<Boxed>| {
        let mut batch = Batch::new();
        batch.add_op(BatchOp::Text {
            transform: Transform::default(),
            text: format!("{} {}", label, w.handle().id),
            font: Default::default(),
            alignment: TextAlignment::Origin,
            brush: Brush::default(),
        });
        batch
    }))
}

fn place(ui: &mut Toolkit, widget: Widget, x: i32, y: i32, w: i32, h: i32) {
    let inner = ui.widget_mut(widget);
    inner.position.set(IntPair::new(x, y));
    inner.size.set(IntPair::new(w, h));
}

/// Renders a batch as text: nested batches in brackets with their transform.
fn show(batch: &Batch) -> String {
    let mut out = String::new();
    for op in batch.data().iter() {
        match op {
            BatchOp::Text { text, .. } => out.push_str(&format!("<{}>", text)),
            BatchOp::Batch { transform, batch } => {
                let clip = transform.clip_size.unwrap();
                out.push_str(&format!(
                    "[@{},{} {}x{} {}]",
                    transform.translate.x,
                    transform.translate.y,
                    clip.x,
                    clip.y,
                    show(batch)
                ));
                assert_eq!(transform.scale, IntPair::new(1, 1));
                assert_eq!(transform.rotate, 0);
            }
            _ => out.push('?'),
        }
    }
    out
}

#[test]
fn a_widget_without_flavor_yields_what_its_listeners_draw() {
    let mut ui = Toolkit::new();
    let w = ui.create_widget();
    assert_eq!(ui.draw(w).len(), 0);
    ui.events_mut(w).on_draw.subscribe(mark("a"));
    ui.events_mut(w).on_draw.subscribe(mark("b"));
    let batches = ui.draw(w);
    assert_eq!(batches.len(), 2);
    assert_eq!(show(&batches[0]), "<a 2>");
    assert_eq!(show(&batches[1]), "<b 2>");
}

#[test]
fn an_empty_layout_draws_one_empty_batch() {
    let ui = Toolkit::new();
    let batches = ui.draw(ui.root_component());
    assert_eq!(batches.len(), 1);
    assert_eq!(batches[0].data().len(), 0);
}

#[test]
fn a_layout_frames_its_children_in_child_order() {
    let mut ui = Toolkit::new();
    let root = ui.root_component();
    let a = ui.create_widget();
    let b = ui.create_widget();
    place(&mut ui, a, 10, 20, 30, 40);
    place(&mut ui, b, 50, 60, 70, 80);
    ui.push_child(root, a);
    ui.push_child(root, b);
    ui.events_mut(a).on_draw.subscribe(mark("a"));
    ui.events_mut(a).on_draw.subscribe(mark("a'"));
    ui.events_mut(b).on_draw.subscribe(mark("b"));
    let batches = ui.draw(root);
    assert_eq!(batches.len(), 1);
    assert_eq!(
        show(&batches[0]),
        "[@10,20 30x40 <a 2>][@10,20 30x40 <a' 2>][@50,60 70x80 <b 3>]"
    );
}

#[test]
fn nested_layouts_nest_their_batches() {
    let mut ui = Toolkit::new();
    let root = ui.root_component();
    let panel = Layout::create(&mut ui);
    let leaf = ui.create_widget();
    place(&mut ui, panel, 1, 2, 100, 100);
    place(&mut ui, leaf, 3, 4, 5, 6);
    ui.push_child(root, panel);
    ui.push_child(panel, leaf);
    ui.events_mut(leaf).on_draw.subscribe(mark("leaf"));
    ui.events_mut(root).on_draw.subscribe(mark("over"));
    let batches = ui.draw(root);
    assert_eq!(batches.len(), 2);
    assert_eq!(show(&batches[0]), "[@1,2 100x100 [@3,4 5x6 <leaf 3>]]");
    assert_eq!(show(&batches[1]), "<over 1>");
}

#[test]
fn a_dead_widget_draws_nothing() {
    let mut ui = Toolkit::new();
    let w = ui.create_widget();
    ui.events_mut(w).on_draw.subscribe(mark("a"));
    assert!(ui.destroy(w));
    assert_eq!(ui.draw(w).len(), 0);
}
