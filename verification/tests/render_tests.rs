use caribou::batch::{
    Batch, BatchOp, Brush, Font, Material, Path, PathOp, Pict, PictImpl, TextAlignment, Transform,
};
use caribou::boxed::{Boxed, Toolkit};
use caribou::input::{HeldKeys, Key};
use caribou::math::IntPair;
use caribou::render::{path_steps, plan, text_offset, PaintSpec, PaintStyle, PathStep, RenderStep};
use caribou::window::Window;

fn show(steps: &[RenderStep]) -> Vec<String> {
    steps
        .iter()
        .map(|step| match step {
            RenderStep::Save => String::from("save"),
            RenderStep::Restore => String::from("restore"),
            RenderStep::Translate(p) => format!("translate {} {}", p.x, p.y),
            RenderStep::Clip(p) => format!("clip {} {}", p.x, p.y),
            RenderStep::Scale(p) => format!("scale {} {}", p.x, p.y),
            RenderStep::Rotate(d) => format!("rotate {}", d),
            RenderStep::Image(key) => format!("image {}", key),
            RenderStep::BeginPath => String::from("begin"),
            RenderStep::Trace(s) => format!("trace {:?}", s),
            RenderStep::Paint(p) => format!("paint {:?} {},{},{},{}", p.style, p.alpha, p.red, p.green, p.blue),
            RenderStep::Measure(text, font, alignment) => {
                format!("measure {} {} {:?}", text, font.size, alignment)
            }
            RenderStep::Text(p) => format!("text {:?} {},{},{},{}", p.style, p.alpha, p.red, p.green, p.blue),
        })
        .collect()
}

fn text(label: &str, brush: Brush) -> BatchOp {
    BatchOp::Text {
        transform: Transform::shift(IntPair::new(5, 6)),
        text: label.to_string(),
        font: Font::default(),
        alignment: TextAlignment::Center,
        brush,
    }
}

#[test]
fn paints_of_a_brush() {
    let brush = Brush {
        stroke_mat: Material::Solid(1, 2, 3, 4),
        fill_mat: Material::Transparent,
        stroke_width: 2,
    };
    let (stroke, fill) = PaintSpec::pair(&brush);
    assert_eq!(
        stroke,
        PaintSpec {
            style: PaintStyle::Stroke,
            anti_alias: true,
            stroke_width: Some(2),
            alpha: 4,
            red: 1,
            green: 2,
            blue: 3,
        }
    );
    assert_eq!(
        fill,
        PaintSpec {
            style: PaintStyle::Fill,
            anti_alias: true,
            stroke_width: None,
            alpha: 0,
            red: 0,
            green: 0,
            blue: 0,
        }
    );
}

#[test]
fn a_line_segment_is_three_steps() {
    let a = IntPair::new(1, 2);
    let b = IntPair::new(3, 4);
    let c = IntPair::new(5, 6);
    let path = Path::from_vec(vec![
        PathOp::MoveTo(a),
        PathOp::Line(a, b),
        PathOp::QuadTo(a, b),
        PathOp::CubicTo(a, b, c),
        PathOp::Rect(a, b),
        PathOp::Oval(b, c),
        PathOp::LineTo(c),
        PathOp::Close,
    ]);
    assert_eq!(
        path_steps(&path),
        vec![
            PathStep::MoveTo(a),
            PathStep::MoveTo(a),
            PathStep::LineTo(b),
            PathStep::Close,
            PathStep::QuadTo(a, b),
            PathStep::CubicTo(a, b, c),
            PathStep::AddRect(a, b),
            PathStep::AddOval(b, c),
            PathStep::LineTo(c),
            PathStep::Close,
        ]
    );
    assert_eq!(path_steps(&Path::new()), vec![]);
}

#[test]
fn text_begins_by_its_alignment() {
    assert_eq!(text_offset(TextAlignment::Origin, 40, 10), IntPair::new(0, 10));
    assert_eq!(text_offset(TextAlignment::Center, 40, 10), IntPair::new(-20, 5));
    assert_eq!(text_offset(TextAlignment::Center, 41, 11), IntPair::new(-20, 5));
    assert_eq!(text_offset(TextAlignment::Center, i32::MIN, i32::MIN), IntPair::new(1 << 30, -(1 << 30)));
}

#[test]
fn an_empty_batch_needs_no_step() {
    assert_eq!(show(&plan(&Batch::new())), Vec::<String>::new());
}

#[test]
fn a_path_is_filled_then_stroked() {
    let mut batch = Batch::new();
    batch.add_op(BatchOp::Path {
        transform: Transform::place(IntPair::new(7, 8), IntPair::new(30, 40)),
        path: Path::from_vec(vec![PathOp::Rect(IntPair::new(1, 1), IntPair::new(2, 2))]),
        brush: Brush {
            stroke_mat: Material::Solid(10, 20, 30, 255),
            fill_mat: Material::Solid(1, 2, 3, 4),
            stroke_width: 2,
        },
    });
    assert_eq!(
        show(&plan(&batch)),
        vec![
            "save",
            "translate 7 8",
            "clip 30 40",
            "scale 1 1",
            "rotate 0",
            "begin",
            "trace AddRect(IntPair { x: 1, y: 1 }, IntPair { x: 2, y: 2 })",
            "paint Fill 4,1,2,3",
            "paint Stroke 255,10,20,30",
            "restore",
        ]
    );
}

#[test]
fn text_is_drawn_with_what_is_not_transparent() {
    let black = Material::Solid(0, 0, 0, 255);
    let mut batch = Batch::new();
    batch.add_op(text("both", Brush { stroke_mat: black, fill_mat: black, stroke_width: 1 }));
    batch.add_op(text("fill", Brush::solid_fill(black)));
    batch.add_op(text("none", Brush::transparent()));
    batch.add_op(text("", Brush::solid_fill(black)));
    assert_eq!(
        show(&plan(&batch)),
        vec![
            "save",
            "translate 5 6",
            "scale 1 1",
            "rotate 0",
            "measure both 12 Center",
            "text Stroke 255,0,0,0",
            "text Fill 255,0,0,0",
            "restore",
            "save",
            "translate 5 6",
            "scale 1 1",
            "rotate 0",
            "measure fill 12 Center",
            "text Fill 255,0,0,0",
            "restore",
            "save",
            "translate 5 6",
            "scale 1 1",
            "rotate 0",
            "measure none 12 Center",
            "restore",
        ]
    );
}

struct Image(u64);

impl PictImpl for Image {
    fn get(&self) -> u64 {
        self.0
    }
}

#[test]
fn nested_batches_are_drawn_inside_their_transform() {
    let mut inner = Batch::new();
    inner.add_op(BatchOp::Pict {
        transform: Transform::default(),
        pict: Pict::new(Box::new(Image(9))),
    });
    let mut outer = Batch::new();
    outer.add_op(BatchOp::Batch {
        transform: Transform::place(IntPair::new(50, 20), IntPair::new(100, 30)),
        batch: inner,
    });
    assert_eq!(
        show(&plan(&outer)),
        vec![
            "save",
            "translate 50 20",
            "clip 100 30",
            "scale 1 1",
            "rotate 0",
            "save",
            "translate 0 0",
            "scale 1 1",
            "rotate 0",
            "image 9",
            "restore",
            "restore",
        ]
    );
}

#[test]
fn a_key_goes_down_and_then_up() {
    let mut held = HeldKeys::new();
    assert!(!held.is_held(Key::Space));
    assert!(held.toggle(Key::Space));
    assert!(held.toggle(Key::Tab));
    assert!(held.is_held(Key::Space));
    assert!(!held.toggle(Key::Space));
    assert!(!held.is_held(Key::Space));
    assert!(held.is_held(Key::Tab));
    assert!(held.toggle(Key::Space));
    assert!(!held.toggle(Key::Tab));
    assert!(held.toggle(Key::Other(3)));
    assert!(held.toggle(Key::Other(4)));
    assert!(!held.toggle(Key::Other(3)));
    assert!(held.is_held(Key::Other(4)));
}

#[test]
fn a_window_makes_its_marker_and_its_root() {
    let mut ui = Toolkit::new();
    let window: Window<Boxed> = Window::new(&mut ui);
    assert_eq!(ui.widget_count(), 4);
    assert_eq!(window.marker.id, 2);
    assert_eq!(window.root.get().id, 3);
    assert!(ui.is_alive(&window.marker));
    assert!(ui.is_alive(window.root.get()));
    assert_eq!(*window.title.get(), "");
    assert_eq!(*window.size.get(), IntPair::new(0, 0));
}
