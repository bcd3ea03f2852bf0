//! Rendering plans: a batch as the flat sequence of steps that a canvas
//! backend performs, one after the other, to put it on the screen.

use crate::batch::{
    Batch, BatchOp, Brush, Font, Material, Path, PathOp, TextAlignment, Transform,
};
use crate::math::{half, IntPair};
use vstd::prelude::*;

verus! {

#[derive(Debug, Clone, Copy, PartialEq, Eq, Structural)]
pub enum PaintStyle {
    Stroke,
    Fill,
}

/// What a backend needs to know to make a paint.
#[derive(Debug, Clone, Copy, PartialEq, Eq, Structural)]
pub struct PaintSpec {
    pub style: PaintStyle,
    pub anti_alias: bool,
    /// The width of the stroke; nothing leaves the backend's own width in place.
    pub stroke_width: Option<i32>,
    pub alpha: u8,
    pub red: u8,
    pub green: u8,
    pub blue: u8,
}

impl PaintSpec {
    /// The paint of style `style` in the colour of `material`: transparent
    /// material is black without opacity.
    pub open spec fn of(style: PaintStyle, stroke_width: Option<i32>, material: Material) -> PaintSpec {
        match material {
            Material::Transparent => PaintSpec {
                style,
                anti_alias: true,
                stroke_width,
                alpha: 0,
                red: 0,
                green: 0,
                blue: 0,
            },
            Material::Solid(red, green, blue, alpha) => PaintSpec {
                style,
                anti_alias: true,
                stroke_width,
                alpha,
                red,
                green,
                blue,
            },
        }
    }

    /// The paint that strokes with `brush`.
    pub open spec fn stroking(brush: Brush) -> PaintSpec {
        Self::of(PaintStyle::Stroke, Some(brush.stroke_width), brush.stroke_mat)
    }

    /// The paint that fills with `brush`.
    pub open spec fn filling(brush: Brush) -> PaintSpec {
        Self::of(PaintStyle::Fill, None, brush.fill_mat)
    }

    fn make(style: PaintStyle, stroke_width: Option<i32>, material: Material) -> (paint: PaintSpec)
        ensures
            paint == Self::of(style, stroke_width, material),
    {
        match material {
            Material::Transparent => PaintSpec {
                style,
                anti_alias: true,
                stroke_width,
                alpha: 0,
                red: 0,
                green: 0,
                blue: 0,
            },
            Material::Solid(red, green, blue, alpha) => PaintSpec {
                style,
                anti_alias: true,
                stroke_width,
                alpha,
                red,
                green,
                blue,
            },
        }
    }

    /// The two paints of `brush`: the one that strokes and the one that fills.
    pub fn pair(brush: &Brush) -> (paints: (PaintSpec, PaintSpec))
        ensures
            paints.0 == Self::stroking(*brush),
            paints.1 == Self::filling(*brush),
    {
        (
            Self::make(PaintStyle::Stroke, Some(brush.stroke_width), brush.stroke_mat),
            Self::make(PaintStyle::Fill, None, brush.fill_mat),
        )
    }
}

/// One step in building a path on a canvas.
#[derive(Debug, Clone, Copy, PartialEq, Eq, Structural)]
pub enum PathStep {
    MoveTo(IntPair),
    LineTo(IntPair),
    QuadTo(IntPair, IntPair),
    CubicTo(IntPair, IntPair, IntPair),
    Close,
    /// A rectangle by position and extent.
    AddRect(IntPair, IntPair),
    /// An oval by the position and extent of its bounds.
    AddOval(IntPair, IntPair),
}

/// The steps that build `op`: a line segment is a move to its beginning, a line
/// to its end and a close; every other operation is one step.
pub open spec fn steps_of(op: PathOp) -> Seq<PathStep> {
    match op {
        PathOp::MoveTo(p) => seq![PathStep::MoveTo(p)],
        PathOp::LineTo(p) => seq![PathStep::LineTo(p)],
        PathOp::QuadTo(a, b) => seq![PathStep::QuadTo(a, b)],
        PathOp::CubicTo(a, b, c) => seq![PathStep::CubicTo(a, b, c)],
        PathOp::Close => seq![PathStep::Close],
        PathOp::Line(begin, end) => seq![
            PathStep::MoveTo(begin),
            PathStep::LineTo(end),
            PathStep::Close,
        ],
        PathOp::Rect(position, size) => seq![PathStep::AddRect(position, size)],
        PathOp::Oval(position, size) => seq![PathStep::AddOval(position, size)],
    }
}

/// The steps that build the operations `ops`, operation after operation.
pub open spec fn traced(ops: Seq<PathOp>) -> Seq<PathStep>
    decreases ops.len(),
{
    if ops.len() == 0 {
        Seq::empty()
    } else {
        traced(ops.drop_last()) + steps_of(ops.last())
    }
}

fn push_steps(op: PathOp, steps: &mut Vec<PathStep>)
    ensures
        final(steps)@ == old(steps)@ + steps_of(op),
{
    match op {
        PathOp::MoveTo(p) => {
            steps.push(PathStep::MoveTo(p));
        },
        PathOp::LineTo(p) => {
            steps.push(PathStep::LineTo(p));
        },
        PathOp::QuadTo(a, b) => {
            steps.push(PathStep::QuadTo(a, b));
        },
        PathOp::CubicTo(a, b, c) => {
            steps.push(PathStep::CubicTo(a, b, c));
        },
        PathOp::Close => {
            steps.push(PathStep::Close);
        },
        PathOp::Line(begin, end) => {
            steps.push(PathStep::MoveTo(begin));
            steps.push(PathStep::LineTo(end));
            steps.push(PathStep::Close);
        },
        PathOp::Rect(position, size) => {
            steps.push(PathStep::AddRect(position, size));
        },
        PathOp::Oval(position, size) => {
            steps.push(PathStep::AddOval(position, size));
        },
    }
    assert(steps@ =~= old(steps)@ + steps_of(op));
}

/// The steps that build `path`.
pub fn path_steps(path: &Path) -> (steps: Vec<PathStep>)
    ensures
        steps@ == traced(path@),
{
    let ops = path.data();
    let mut steps: Vec<PathStep> = Vec::new();
    let mut i: usize = 0;
    while i < ops.len()
        invariant
            i <= ops@.len(),
            steps@ == traced(ops@.take(i as int)),
        decreases ops@.len() - i,
    {
        proof {
            assert(ops@.take(i as int + 1).drop_last() =~= ops@.take(i as int));
        }
        push_steps(ops[i], &mut steps);
        i += 1;
    }
    assert(ops@.take(ops@.len() as int) =~= ops@);
    steps
}

/// Where text of the measured `width` and `height` begins, seen from the point
/// it is aligned to: the origin is its top left corner, the centre its middle.
pub open spec fn text_origin(alignment: TextAlignment, width: i32, height: i32) -> IntPair {
    match alignment {
        TextAlignment::Origin => IntPair { x: 0, y: height },
        TextAlignment::Center => IntPair {
            x: (-half(width as int)) as i32,
            y: half(height as int) as i32,
        },
    }
}

pub fn text_offset(alignment: TextAlignment, width: i32, height: i32) -> (offset: IntPair)
    ensures
        offset == text_origin(alignment, width, height),
{
    match alignment {
        TextAlignment::Origin => IntPair::new(0, height),
        TextAlignment::Center => IntPair::new(-(width / 2), height / 2),
    }
}

/// One step of a rendering plan.
pub enum RenderStep {
    /// Remember the state of the canvas.
    Save,
    /// Return to the state last remembered and not yet returned to.
    Restore,
    Translate(IntPair),
    /// Clip to the rectangle of this extent at the origin.
    Clip(IntPair),
    Scale(IntPair),
    /// Rotate by this many degrees.
    Rotate(i32),
    /// Draw the image with this key at the origin.
    Image(u64),
    /// Begin a new path.
    BeginPath,
    /// Extend the path by this step.
    Trace(PathStep),
    /// Draw the path with this paint.
    Paint(PaintSpec),
    /// Measure this text in this font, move to where it begins under this
    /// alignment, and keep it ready to draw.
    Measure(String, Font, TextAlignment),
    /// Draw the text last measured with this paint.
    Text(PaintSpec),
}

/// The steps that put `transform` in force: move, clip if there is a clip,
/// scale, rotate.
pub open spec fn placed(transform: Transform) -> Seq<RenderStep> {
    seq![RenderStep::Translate(transform.translate)] + (match transform.clip_size {
        Some(size) => seq![RenderStep::Clip(size)],
        None => Seq::empty(),
    }) + seq![RenderStep::Scale(transform.scale), RenderStep::Rotate(transform.rotate)]
}

/// The steps that draw text with `brush`: the stroke first, then the fill, each
/// only where its material is not transparent.
pub open spec fn inked(brush: Brush) -> Seq<RenderStep> {
    (if brush.stroke_mat != Material::Transparent {
        seq![RenderStep::Text(PaintSpec::stroking(brush))]
    } else {
        Seq::empty()
    }) + (if brush.fill_mat != Material::Transparent {
        seq![RenderStep::Text(PaintSpec::filling(brush))]
    } else {
        Seq::empty()
    })
}

/// The steps that draw `op`, with nested batches followed for `depth` levels.
/// Every operation is drawn between a save and a restore, under its transform.
/// A path is filled, then stroked. Empty text is not drawn at all.
pub open spec fn planned_op(op: BatchOp, depth: nat) -> Seq<RenderStep>
    decreases depth, 0nat,
{
    match op {
        BatchOp::Pict { transform, pict } => seq![RenderStep::Save] + placed(transform) + seq![
            RenderStep::Image(pict.key()),
            RenderStep::Restore,
        ],
        BatchOp::Path { transform, path, brush } => seq![RenderStep::Save] + placed(transform)
            + seq![RenderStep::BeginPath] + traced(path@).map_values(
            |s: PathStep| RenderStep::Trace(s),
        ) + seq![
            RenderStep::Paint(PaintSpec::filling(brush)),
            RenderStep::Paint(PaintSpec::stroking(brush)),
            RenderStep::Restore,
        ],
        BatchOp::Text { transform, text, font, alignment, brush } => if text@.len() == 0 {
            Seq::empty()
        } else {
            seq![RenderStep::Save] + placed(transform) + seq![
                RenderStep::Measure(text, font, alignment),
            ] + inked(brush) + seq![RenderStep::Restore]
        },
        BatchOp::Batch { transform, batch } => if depth == 0 {
            Seq::empty()
        } else {
            seq![RenderStep::Save] + placed(transform) + planned(batch@, (depth - 1) as nat)
                + seq![RenderStep::Restore]
        },
    }
}

/// The steps that draw the operations `ops`, operation after operation.
pub open spec fn planned(ops: Seq<BatchOp>, depth: nat) -> Seq<RenderStep>
    decreases depth, 1 + ops.len(),
{
    if ops.len() == 0 {
        Seq::empty()
    } else {
        planned(ops.drop_last(), depth) + planned_op(ops.last(), depth)
    }
}

fn place(transform: &Transform, steps: &mut Vec<RenderStep>)
    ensures
        final(steps)@ == old(steps)@ + placed(*transform),
{
    steps.push(RenderStep::Translate(transform.translate));
    match transform.clip_size {
        Some(size) => {
            steps.push(RenderStep::Clip(size));
        },
        None => {},
    }
    steps.push(RenderStep::Scale(transform.scale));
    steps.push(RenderStep::Rotate(transform.rotate));
    assert(steps@ =~= old(steps)@ + placed(*transform));
}

fn plan_op(op: &BatchOp, depth: usize, steps: &mut Vec<RenderStep>)
    ensures
        final(steps)@ == old(steps)@ + planned_op(*op, depth as nat),
    decreases depth, 0nat,
{
    match op {
        BatchOp::Pict { transform, pict } => {
            steps.push(RenderStep::Save);
            place(transform, steps);
            steps.push(RenderStep::Image(pict.data()));
            steps.push(RenderStep::Restore);
            assert(steps@ =~= old(steps)@ + planned_op(*op, depth as nat));
        },
        BatchOp::Path { transform, path, brush } => {
            steps.push(RenderStep::Save);
            place(transform, steps);
            steps.push(RenderStep::BeginPath);
            let ghost begun = steps@;
            let ghost lift = |s: PathStep| RenderStep::Trace(s);
            let traces = path_steps(path);
            let mut i: usize = 0;
            while i < traces.len()
                invariant
                    i <= traces@.len(),
                    lift == |s: PathStep| RenderStep::Trace(s),
                    steps@ == begun + traces@.take(i as int).map_values(lift),
                decreases traces@.len() - i,
            {
                steps.push(RenderStep::Trace(traces[i]));
                proof {
                    assert(traces@.take(i as int).push(traces@[i as int]) =~= traces@.take(
                        i as int + 1,
                    ));
                    assert(steps@ =~= begun + traces@.take(i as int + 1).map_values(lift));
                }
                i += 1;
            }
            assert(traces@.take(traces@.len() as int) =~= traces@);
            let (stroke, fill) = PaintSpec::pair(brush);
            steps.push(RenderStep::Paint(fill));
            steps.push(RenderStep::Paint(stroke));
            steps.push(RenderStep::Restore);
            assert(steps@ =~= old(steps)@ + planned_op(*op, depth as nat));
        },
        BatchOp::Text { transform, text, font, alignment, brush } => {
            if text.as_str().is_empty() {
                assert(steps@ =~= old(steps)@ + planned_op(*op, depth as nat));
            } else {
                steps.push(RenderStep::Save);
                place(transform, steps);
                steps.push(RenderStep::Measure(text.clone(), font.duplicate(), *alignment));
                let (stroke, fill) = PaintSpec::pair(brush);
                match brush.stroke_mat {
                    Material::Transparent => {},
                    _ => {
                        steps.push(RenderStep::Text(stroke));
                    },
                }
                match brush.fill_mat {
                    Material::Transparent => {},
                    _ => {
                        steps.push(RenderStep::Text(fill));
                    },
                }
                steps.push(RenderStep::Restore);
                assert(steps@ =~= old(steps)@ + planned_op(*op, depth as nat));
            }
        },
        BatchOp::Batch { transform, batch } => {
            if depth == 0 {
                assert(steps@ =~= old(steps)@ + planned_op(*op, depth as nat));
            } else {
                steps.push(RenderStep::Save);
                place(transform, steps);
                plan_all(batch, depth - 1, steps);
                steps.push(RenderStep::Restore);
                assert(steps@ =~= old(steps)@ + planned_op(*op, depth as nat));
            }
        },
    }
}

fn plan_all(batch: &Batch, depth: usize, steps: &mut Vec<RenderStep>)
    ensures
        final(steps)@ == old(steps)@ + planned(batch@, depth as nat),
    decreases depth, 1nat,
{
    let ops = batch.data();
    let mut i: usize = 0;
    assert(steps@ =~= old(steps)@ + planned(ops@.take(0), depth as nat));
    while i < ops.len()
        invariant
            i <= ops@.len(),
            ops@ == batch@,
            steps@ == old(steps)@ + planned(ops@.take(i as int), depth as nat),
        decreases ops@.len() - i,
    {
        proof {
            assert(ops@.take(i as int + 1).drop_last() =~= ops@.take(i as int));
            assert(ops@.take(i as int + 1).last() == ops@[i as int]);
        }
        plan_op(&ops[i], depth, steps);
        proof {
            assert(steps@ =~= old(steps)@ + planned(ops@.take(i as int + 1), depth as nat));
        }
        i += 1;
    }
    assert(ops@.take(ops@.len() as int) =~= ops@);
}

/// How deep a plan follows batches nested in batches.
pub open spec fn plan_depth() -> nat {
    usize::MAX as nat
}

/// The rendering plan of `batch`.
pub fn plan(batch: &Batch) -> (steps: Vec<RenderStep>)
    ensures
        steps@ == planned(batch@, plan_depth()),
{
    let mut steps: Vec<RenderStep> = Vec::new();
    plan_all(batch, usize::MAX, &mut steps);
    assert(Seq::<RenderStep>::empty() + planned(batch@, plan_depth()) =~= planned(
        batch@,
        plan_depth(),
    ));
    steps
}

} // verus!
