//! Line compositor: tri-state line weights (`Pen`), per-cell drawings made of
//! four directional weights (`FieldDrawing`), and the cell contents (`Field`).

use vstd::prelude::*;

verus! {

/// A tri-state line weight for one directional edge of a grid cell.
#[derive(Copy, Clone, Debug, PartialEq, Eq, Structural)]
pub enum Pen {
    Empty,
    Thin,
    Thick,
}

/// One of the four directional edges of a grid cell.
#[derive(Copy, Clone, Debug, PartialEq, Eq, Structural)]
pub enum Direction {
    Up,
    Right,
    Down,
    Left,
}

/// Four independent directional line weights attached to one cell.
#[derive(Copy, Clone, Debug, PartialEq, Eq, Structural)]
pub struct FieldDrawing {
    pub up: Pen,
    pub right: Pen,
    pub down: Pen,
    pub left: Pen,
}

/// The contents of one grid cell: nothing, a literal display character, or a
/// line drawing.
#[derive(Copy, Clone, Debug, PartialEq, Eq, Structural)]
pub enum Field {
    Empty,
    Decoration(char),
    Drawing(FieldDrawing),
}

/// A drawing holding the given pen in the given direction and `Empty` in the
/// other three.
pub open spec fn spec_drawing_from(d: Direction, p: Pen) -> FieldDrawing {
    match d {
        Direction::Up => FieldDrawing { up: p, right: Pen::Empty, down: Pen::Empty, left: Pen::Empty },
        Direction::Right => FieldDrawing { up: Pen::Empty, right: p, down: Pen::Empty, left: Pen::Empty },
        Direction::Down => FieldDrawing { up: Pen::Empty, right: Pen::Empty, down: p, left: Pen::Empty },
        Direction::Left => FieldDrawing { up: Pen::Empty, right: Pen::Empty, down: Pen::Empty, left: p },
    }
}

/// Merging two drawings combines each of the four directions independently.
pub open spec fn spec_drawing_combine(a: FieldDrawing, b: FieldDrawing) -> FieldDrawing {
    FieldDrawing {
        up: spec_pen_combine(a.up, b.up),
        right: spec_pen_combine(a.right, b.right),
        down: spec_pen_combine(a.down, b.down),
        left: spec_pen_combine(a.left, b.left),
    }
}

impl FieldDrawing {
    /// Build a drawing from a single (direction, pen) pair; the other three
    /// directions are implicitly `Empty`.
    pub fn new_from(d: Direction, p: Pen) -> (r: FieldDrawing)
        ensures
            r == spec_drawing_from(d, p),
    {
        let mut up = Pen::Empty;
        let mut right = Pen::Empty;
        let mut down = Pen::Empty;
        let mut left = Pen::Empty;

        match d {
            Direction::Up => up = p,
            Direction::Right => right = p,
            Direction::Down => down = p,
            Direction::Left => left = p,
        }

        FieldDrawing { up, right, down, left }
    }

    /// Merge another drawing into this one, direction by direction.
    pub fn combine(&self, other: FieldDrawing) -> (r: FieldDrawing)
        ensures
            r == spec_drawing_combine(*self, other),
    {
        FieldDrawing {
            up: Pen::combine(self.up, other.up),
            right: Pen::combine(self.right, other.right),
            down: Pen::combine(self.down, other.down),
            left: Pen::combine(self.left, other.left),
        }
    }
}

/// Merging the same drawing in a second time changes nothing.
pub proof fn lemma_drawing_combine_idempotent(a: FieldDrawing, b: FieldDrawing)
    ensures
        spec_drawing_combine(spec_drawing_combine(a, b), b) == spec_drawing_combine(a, b),
{
    lemma_pen_combine_absorb(a.up, b.up);
    lemma_pen_combine_absorb(a.right, b.right);
    lemma_pen_combine_absorb(a.down, b.down);
    lemma_pen_combine_absorb(a.left, b.left);
}

/// Combining with the same pen twice is the same as combining once.
pub proof fn lemma_pen_combine_absorb(p1: Pen, p2: Pen)
    ensures
        spec_pen_combine(spec_pen_combine(p1, p2), p2) == spec_pen_combine(p1, p2),
{
}

/// Drawing combination is commutative.
pub proof fn lemma_drawing_combine_commutative(a: FieldDrawing, b: FieldDrawing)
    ensures
        spec_drawing_combine(a, b) == spec_drawing_combine(b, a),
{
}

/// The all-empty drawing is the identity of drawing combination.
pub proof fn lemma_drawing_combine_empty(a: FieldDrawing)
    ensures
        spec_drawing_combine(
            a,
            FieldDrawing { up: Pen::Empty, right: Pen::Empty, down: Pen::Empty, left: Pen::Empty },
        ) == a,
        spec_drawing_combine(
            FieldDrawing { up: Pen::Empty, right: Pen::Empty, down: Pen::Empty, left: Pen::Empty },
            a,
        ) == a,
{
}

/// Pen combination is associative.
pub proof fn lemma_pen_combine_associative(p1: Pen, p2: Pen, p3: Pen)
    ensures
        spec_pen_combine(spec_pen_combine(p1, p2), p3) == spec_pen_combine(
            p1,
            spec_pen_combine(p2, p3),
        ),
{
}

/// Drawing combination is associative.
pub proof fn lemma_drawing_combine_associative(a: FieldDrawing, b: FieldDrawing, c: FieldDrawing)
    ensures
        spec_drawing_combine(spec_drawing_combine(a, b), c) == spec_drawing_combine(
            a,
            spec_drawing_combine(b, c),
        ),
{
    lemma_pen_combine_associative(a.up, b.up, c.up);
    lemma_pen_combine_associative(a.right, b.right, c.right);
    lemma_pen_combine_associative(a.down, b.down, c.down);
    lemma_pen_combine_associative(a.left, b.left, c.left);
}

/// The combine rule for two line weights: `Empty` yields the other operand,
/// `Thick` dominates `Thin`, and `Thin` with `Thin` stays `Thin`.
pub open spec fn spec_pen_combine(p1: Pen, p2: Pen) -> Pen {
    match (p1, p2) {
        (Pen::Empty, p) => p,
        (p, Pen::Empty) => p,
        (Pen::Thick, _) => Pen::Thick,
        (_, Pen::Thick) => Pen::Thick,
        (Pen::Thin, Pen::Thin) => Pen::Thin,
    }
}

impl Pen {
    /// Merge two line weights targeting the same cell edge.
    pub fn combine(p1: Pen, p2: Pen) -> (r: Pen)
        ensures
            r == spec_pen_combine(p1, p2),
    {
        match (p1, p2) {
            (Pen::Empty, p) => p,
            (p, Pen::Empty) => p,
            (Pen::Thick, _) | (_, Pen::Thick) => Pen::Thick,
            (Pen::Thin, Pen::Thin) => Pen::Thin,
        }
    }
}

/// Pen combination is commutative.
pub proof fn lemma_pen_combine_commutative(p1: Pen, p2: Pen)
    ensures
        spec_pen_combine(p1, p2) == spec_pen_combine(p2, p1),
{
}

/// Pen combination is idempotent.
pub proof fn lemma_pen_combine_idempotent(p: Pen)
    ensures
        spec_pen_combine(p, p) == p,
{
}

/// `Empty` is the identity of pen combination.
pub proof fn lemma_pen_combine_identity(p: Pen)
    ensures
        spec_pen_combine(Pen::Empty, p) == p,
        spec_pen_combine(p, Pen::Empty) == p,
{
}

/// `Thick` absorbs every other weight.
pub proof fn lemma_pen_combine_thick(p: Pen)
    ensures
        spec_pen_combine(Pen::Thick, p) == Pen::Thick,
        spec_pen_combine(p, Pen::Thick) == Pen::Thick,
{
}

} // verus!
