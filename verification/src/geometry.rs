//! Axis-aligned rectangles and the overlap test used for collision
//! detection, together with the `Collidable` trait that entities with a
//! bounding box implement.

use vstd::prelude::*;

verus! {

/// A two-dimensional integer vector.
#[derive(Clone, Copy, Debug, PartialEq, Eq, Structural)]
pub struct Vec2 {
    pub x: i32,
    pub y: i32,
}

/// An axis-aligned rectangle: top-left corner `pos`, extent `size`.
/// The y axis points downward, as on the screen.
#[derive(Clone, Copy, Debug, PartialEq, Eq, Structural)]
pub struct Rect {
    pub pos: Vec2,
    pub size: Vec2,
}

impl Rect {
    /// A rectangle is well formed when its extent is non-negative.
    pub open spec fn wf(self) -> bool {
        self.size.x >= 0 && self.size.y >= 0
    }
}

/// Two rectangles overlap when their interiors intersect on both axes.
/// Rectangles that merely share a boundary edge do not overlap: the
/// comparisons are strict.
pub open spec fn spec_overlaps(a: Rect, b: Rect) -> bool {
    &&& a.pos.x < b.pos.x + b.size.x
    &&& a.pos.x + a.size.x > b.pos.x
    &&& a.pos.y < b.pos.y + b.size.y
    &&& a.pos.y + a.size.y > b.pos.y
}

/// Overlap test over arbitrary coordinates; the sums are formed in 64 bits
/// so that no overflow can occur.
pub fn overlaps(a: &Rect, b: &Rect) -> (r: bool)
    ensures
        r == spec_overlaps(*a, *b),
{
    let ax = a.pos.x as i64;
    let ay = a.pos.y as i64;
    let bx = b.pos.x as i64;
    let by = b.pos.y as i64;
    let x_overlap = ax < bx + b.size.x as i64 && ax + a.size.x as i64 > bx;
    let y_overlap = ay < by + b.size.y as i64 && ay + a.size.y as i64 > by;
    x_overlap && y_overlap
}

/// The overlap test is symmetric.
pub proof fn lemma_overlaps_symmetric(a: Rect, b: Rect)
    ensures
        spec_overlaps(a, b) == spec_overlaps(b, a),
{
}

/// Rectangles that touch edge to edge on either axis do not overlap.
pub proof fn lemma_touching_edge_no_overlap(a: Rect, b: Rect)
    requires
        a.pos.x + a.size.x == b.pos.x
            || b.pos.x + b.size.x == a.pos.x
            || a.pos.y + a.size.y == b.pos.y
            || b.pos.y + b.size.y == a.pos.y,
    ensures
        !spec_overlaps(a, b),
{
}

/// An entity with a bounding box that can take part in collision tests.
pub trait Collidable: Sized {
    /// The entity's bounding box, as the contracts see it.
    spec fn bounds(&self) -> Rect;

    /// A short name for the entity, for display by a caller.
    spec fn name_spec(&self) -> Seq<char>;

    fn get_rect(&self) -> (r: Rect)
        ensures
            r == self.bounds(),
    ;

    fn get_name(&self) -> (r: &'static str)
        ensures
            r@ == self.name_spec(),
    ;

}

/// True exactly when the two entities' bounding boxes overlap.
pub fn collides<A: Collidable, B: Collidable>(a: &A, b: &B) -> (r: bool)
    ensures
        r == spec_overlaps(a.bounds(), b.bounds()),
{
    let a_rect = a.get_rect();
    let b_rect = b.get_rect();
    overlaps(&a_rect, &b_rect)
}

} // verus!
