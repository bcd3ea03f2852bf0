//! Draw batches: ordered drawing operations under transforms, and the value
//! types that describe paint, paths and fonts.

use crate::math::IntPair;
use vstd::prelude::*;

verus! {

/// An ordered, appendable sequence of drawing operations.
#[derive(Debug)]
pub struct Batch {
    data: Vec<BatchOp>,
}

impl View for Batch {
    type V = Seq<BatchOp>;

    closed spec fn view(&self) -> Seq<BatchOp> {
        self.data@
    }
}

impl Batch {
    pub fn new() -> (batch: Batch)
        ensures
            batch@ == Seq::<BatchOp>::empty(),
    {
        Batch { data: Vec::new() }
    }

    /// Puts `op` after every operation already in the batch.
    pub fn add_op(&mut self, op: BatchOp)
        ensures
            final(self)@ == old(self)@.push(op),
    {
        self.data.push(op);
    }

    /// Puts the operations of `other`, in their order, after those of `self`.
    pub fn append(&mut self, other: Batch)
        ensures
            final(self)@ == old(self)@ + other@,
    {
        let mut other = other;
        self.data.append(&mut other.data);
    }

    pub fn data(&self) -> (ops: &Vec<BatchOp>)
        ensures
            ops@ == self@,
    {
        &self.data
    }
}

/// The operations of all `batches`, batch after batch, each batch's own order kept.
pub open spec fn concat(batches: Seq<Batch>) -> Seq<BatchOp>
    decreases batches.len(),
{
    if batches.len() == 0 {
        Seq::empty()
    } else {
        concat(batches.drop_last()) + batches.last()@
    }
}

/// Joining one more batch on the right joins its operations on the right.
pub proof fn concat_push(batches: Seq<Batch>, last: Batch)
    ensures
        concat(batches.push(last)) == concat(batches) + last@,
{
    assert(batches.push(last).drop_last() =~= batches);
}

/// Consolidating the batches `a`, `b`, `c` gives the operations of `a`, then
/// those of `b`, then those of `c`.
pub proof fn concat_three(a: Batch, b: Batch, c: Batch)
    ensures
        concat(seq![a, b, c]) == a@ + b@ + c@,
{
    let none = Seq::<Batch>::empty();
    assert(seq![a, b, c] =~= none.push(a).push(b).push(c));
    concat_push(none.push(a).push(b), c);
    concat_push(none.push(a), b);
    concat_push(none, a);
    assert(concat(none) + a@ =~= a@);
}

/// Merging a list of batches into one.
pub trait BatchConsolidation {
    fn consolidate(self) -> Batch;
}

impl BatchConsolidation for Vec<Batch> {
    /// One batch that holds every operation of the given batches, in list order.
    fn consolidate(self) -> (batch: Batch)
        ensures
            batch@ == concat(self@),
    {
        let ghost given = self@;
        let mut rest = self;
        let mut batch = Batch::new();
        let mut i: usize = 0;
        while i < rest.len()
            invariant
                i <= rest@.len(),
                rest@.len() == given.len(),
                forall|k: int| i <= k < given.len() ==> rest@[k] == given[k],
                batch@ == concat(given.take(i as int)),
            decreases rest@.len() - i,
        {
            proof {
                concat_push(given.take(i as int), given[i as int]);
                assert(given.take(i as int).push(given[i as int]) =~= given.take(i as int + 1));
            }
            batch.data.append(&mut rest[i].data);
            i += 1;
        }
        assert(given.take(given.len() as int) =~= given);
        batch
    }
}

/// One drawing operation with the transform it is drawn under.
#[derive(Debug)]
pub enum BatchOp {
    Pict { transform: Transform, pict: Pict },
    Path { transform: Transform, path: Path, brush: Brush },
    Text { transform: Transform, text: String, font: Font, alignment: TextAlignment, brush: Brush },
    Batch { transform: Transform, batch: Batch },
}

/// Where and how an operation lands: moved by `translate`, optionally clipped to
/// a rectangle of `clip_size` at the moved origin, then scaled and rotated.
#[derive(Debug, Clone, Copy, PartialEq, Eq, Structural)]
pub struct Transform {
    pub translate: IntPair,
    pub scale: IntPair,
    pub rotate: i32,
    pub rotate_center: IntPair,
    pub clip_size: Option<IntPair>,
}

impl Transform {
    /// The transform that changes nothing: no move, unit scale, no turn, no clip.
    pub open spec fn identity() -> Transform {
        Transform {
            translate: IntPair { x: 0, y: 0 },
            scale: IntPair { x: 1, y: 1 },
            rotate: 0,
            rotate_center: IntPair { x: 0, y: 0 },
            clip_size: None,
        }
    }

    /// The transform that places a child: moved to `position`, clipped to `size`.
    pub open spec fn placing(position: IntPair, size: IntPair) -> Transform {
        Transform { translate: position, clip_size: Some(size), ..Transform::identity() }
    }

    /// The transform that only moves by `offset`.
    pub open spec fn moving(offset: IntPair) -> Transform {
        Transform { translate: offset, ..Transform::identity() }
    }

    pub fn place(position: IntPair, size: IntPair) -> (transform: Transform)
        ensures
            transform == Transform::placing(position, size),
    {
        Transform {
            translate: position,
            scale: IntPair::new(1, 1),
            rotate: 0,
            rotate_center: IntPair::new(0, 0),
            clip_size: Some(size),
        }
    }

    pub fn shift(offset: IntPair) -> (transform: Transform)
        ensures
            transform == Transform::moving(offset),
    {
        Transform {
            translate: offset,
            scale: IntPair::new(1, 1),
            rotate: 0,
            rotate_center: IntPair::new(0, 0),
            clip_size: None,
        }
    }
}

impl Default for Transform {
    fn default() -> (transform: Self)
        ensures
            transform == Transform::identity(),
    {
        Transform {
            translate: IntPair::new(0, 0),
            scale: IntPair::new(1, 1),
            rotate: 0,
            rotate_center: IntPair::new(0, 0),
            clip_size: None,
        }
    }
}

#[derive(Debug, Clone, Copy, PartialEq, Eq, Structural)]
pub enum TextAlignment {
    Origin,
    Center,
}

/// An image as the rendering backend keeps it. The toolkit never looks inside:
/// it carries the image's key through a batch and hands it back to the backend.
pub trait PictImpl {
    /// Whether `key` is a key under which the backend finds the image. Unless
    /// an image says more of itself, any key is taken to be possible.
    open spec fn keyed(&self, key: u64) -> bool {
        true
    }

    /// A key under which the backend finds the image.
    fn get(&self) -> (key: u64)
        ensures
            self.keyed(key),
    ;
}

/// An embedded image, known by the key of the backend's image.
#[derive(Debug, Clone, Copy, PartialEq, Eq, Structural)]
pub struct Pict {
    key: u64,
}

impl Pict {
    pub closed spec fn key(&self) -> u64 {
        self.key
    }

    /// The picture of the backend image `data`.
    pub fn new(data: Box<dyn PictImpl>) -> (pict: Pict)
        ensures
            data.keyed(pict.key()),
    {
        Pict { key: data.get() }
    }

    /// The key of the backend image.
    pub fn data(&self) -> (key: u64)
        ensures
            key == self.key(),
    {
        self.key
    }
}

/// An ordered sequence of path-construction steps.
#[derive(Debug, Clone)]
pub struct Path {
    data: Vec<PathOp>,
}

impl View for Path {
    type V = Seq<PathOp>;

    closed spec fn view(&self) -> Seq<PathOp> {
        self.data@
    }
}

impl Path {
    pub fn new() -> (path: Path)
        ensures
            path@ == Seq::<PathOp>::empty(),
    {
        Path { data: Vec::new() }
    }

    pub fn from_vec(data: Vec<PathOp>) -> (path: Path)
        ensures
            path@ == data@,
    {
        Path { data }
    }

    pub fn add(&mut self, op: PathOp)
        ensures
            final(self)@ == old(self)@.push(op),
    {
        self.data.push(op);
    }

    pub fn add_path(&mut self, path: Path)
        ensures
            final(self)@ == old(self)@ + path@,
    {
        let mut path = path;
        self.data.append(&mut path.data);
    }

    pub fn data(&self) -> (ops: &Vec<PathOp>)
        ensures
            ops@ == self@,
    {
        &self.data
    }
}

#[derive(Debug, Clone, Copy, PartialEq, Eq, Structural)]
pub enum PathOp {
    MoveTo(IntPair),
    LineTo(IntPair),
    QuadTo(IntPair, IntPair),
    CubicTo(IntPair, IntPair, IntPair),
    Close,
    Line(IntPair, IntPair),
    Rect(IntPair, IntPair),
    Oval(IntPair, IntPair),
}

/// Stroke and fill paint.
#[derive(Debug, Clone, Copy, PartialEq, Eq, Structural)]
pub struct Brush {
    pub stroke_mat: Material,
    pub fill_mat: Material,
    pub stroke_width: i32,
}

impl Brush {
    pub fn solid_stroke(mat: Material, stroke_width: i32) -> (brush: Brush)
        ensures
            brush == (Brush { stroke_mat: mat, fill_mat: Material::Transparent, stroke_width }),
    {
        Brush { stroke_mat: mat, fill_mat: Material::Transparent, stroke_width }
    }

    pub fn solid_fill(mat: Material) -> (brush: Brush)
        ensures
            brush == (Brush {
                stroke_mat: Material::Transparent,
                fill_mat: mat,
                stroke_width: 0,
            }),
    {
        Brush { stroke_mat: Material::Transparent, fill_mat: mat, stroke_width: 0 }
    }

    pub open spec fn clear() -> Brush {
        Brush {
            stroke_mat: Material::Transparent,
            fill_mat: Material::Transparent,
            stroke_width: 0,
        }
    }

    pub fn transparent() -> (brush: Brush)
        ensures
            brush == Brush::clear(),
    {
        Brush {
            stroke_mat: Material::Transparent,
            fill_mat: Material::Transparent,
            stroke_width: 0,
        }
    }
}

impl Default for Brush {
    fn default() -> (brush: Self)
        ensures
            brush == Brush::clear(),
    {
        Brush::transparent()
    }
}

/// Paint: nothing, or a flat colour given as red, green, blue and alpha, each
/// from 0 to 255.
#[derive(Debug, Clone, Copy, PartialEq, Eq, Structural)]
pub enum Material {
    Transparent,
    Solid(u8, u8, u8, u8),
}

#[derive(Debug, Clone)]
pub struct Font {
    pub family: String,
    pub size: i32,
    pub weight: i32,
    pub slant: FontSlant,
}

impl Font {
    /// A copy of the font.
    pub fn duplicate(&self) -> (font: Font)
        ensures
            font == *self,
    {
        Font {
            family: self.family.clone(),
            size: self.size,
            weight: self.weight,
            slant: self.slant,
        }
    }
}

impl Default for Font {
    fn default() -> (font: Self)
        ensures
            font.family@ == "DengXian"@,
            font.size == 12,
            font.weight == 400,
            font.slant == FontSlant::Normal,
    {
        Font { family: "DengXian".to_owned(), size: 12, weight: 400, slant: FontSlant::Normal }
    }
}

#[derive(Debug, Clone, Copy, PartialEq, Eq, Structural)]
pub enum FontSlant {
    Normal,
    Italic,
    Oblique,
}

} // verus!
