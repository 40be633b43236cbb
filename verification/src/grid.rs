//! The grid of cells the line compositor paints into: a dense rectangular
//! array of fields addressed by column and row.

use vstd::prelude::*;

use crate::compositor::Direction;
use crate::compositor::Field;
use crate::compositor::FieldDrawing;
use crate::compositor::Pen;
use crate::compositor::spec_drawing_combine;
use crate::compositor::spec_drawing_from;

verus! {

/// A dense array of `(w + 1) * (h + 1)` fields addressed by integer column
/// and row, both inclusive of their upper bound.
#[derive(Debug)]
pub struct Grid {
    pub w: i16,
    pub h: i16,
    pub grid: Vec<Field>,
}

/// Painting one direction onto a cell: an empty cell or a decoration becomes
/// a fresh single-direction drawing; an existing drawing is merged with the
/// new single-direction drawing.
pub open spec fn spec_painted(f: Field, d: Direction, p: Pen) -> Field {
    match f {
        Field::Drawing(dw) => Field::Drawing(spec_drawing_combine(dw, spec_drawing_from(d, p))),
        _ => Field::Drawing(spec_drawing_from(d, p)),
    }
}

/// The vertical-edge step of clearing: a non-drawing becomes empty; a
/// drawing loses its vertical arms away from a horizontal edge, and its
/// inward horizontal arm.
pub open spec fn spec_clear_ex(f: Field, ex0: bool, ey: bool) -> Field {
    match f {
        Field::Drawing(dw) => Field::Drawing(
            FieldDrawing {
                up: if !ey {
                    Pen::Empty
                } else {
                    dw.up
                },
                down: if !ey {
                    Pen::Empty
                } else {
                    dw.down
                },
                right: if ex0 {
                    Pen::Empty
                } else {
                    dw.right
                },
                left: if ex0 {
                    dw.left
                } else {
                    Pen::Empty
                },
            },
        ),
        _ => Field::Empty,
    }
}

/// The horizontal-edge step of clearing: a non-drawing becomes empty; a
/// drawing loses its horizontal arms away from a vertical edge, and its
/// inward vertical arm.
pub open spec fn spec_clear_ey(f: Field, ey0: bool, ex: bool) -> Field {
    match f {
        Field::Drawing(dw) => Field::Drawing(
            FieldDrawing {
                left: if !ex {
                    Pen::Empty
                } else {
                    dw.left
                },
                right: if !ex {
                    Pen::Empty
                } else {
                    dw.right
                },
                down: if ey0 {
                    Pen::Empty
                } else {
                    dw.down
                },
                up: if ey0 {
                    dw.up
                } else {
                    Pen::Empty
                },
            },
        ),
        _ => Field::Empty,
    }
}

/// What clearing a rectangle does to one of its cells, depending on which of
/// the rectangle's edges the cell lies on: fully interior cells are wiped;
/// edge cells keep only their outward-facing arms.
pub open spec fn spec_cleared(f: Field, ex0: bool, ex1: bool, ey0: bool, ey1: bool) -> Field {
    let ex = ex0 || ex1;
    let ey = ey0 || ey1;
    if !ex && !ey {
        Field::Empty
    } else {
        let f1 = if ex {
            spec_clear_ex(f, ex0, ey)
        } else {
            f
        };
        if ey {
            spec_clear_ey(f1, ey0, ex)
        } else {
            f1
        }
    }
}

/// Clearing one cell, given its edge flags.
fn cleared_field(f: Field, ex0: bool, ex1: bool, ey0: bool, ey1: bool) -> (r: Field)
    ensures
        r == spec_cleared(f, ex0, ex1, ey0, ey1),
{
    let ex = ex0 || ex1;
    let ey = ey0 || ey1;
    if !ex && !ey {
        return Field::Empty;
    }
    let f1 = if ex {
        match f {
            Field::Drawing(dw) => Field::Drawing(
                FieldDrawing {
                    up: if !ey {
                        Pen::Empty
                    } else {
                        dw.up
                    },
                    down: if !ey {
                        Pen::Empty
                    } else {
                        dw.down
                    },
                    right: if ex0 {
                        Pen::Empty
                    } else {
                        dw.right
                    },
                    left: if ex0 {
                        dw.left
                    } else {
                        Pen::Empty
                    },
                },
            ),
            _ => Field::Empty,
        }
    } else {
        f
    };
    if ey {
        match f1 {
            Field::Drawing(dw) => Field::Drawing(
                FieldDrawing {
                    left: if !ex {
                        Pen::Empty
                    } else {
                        dw.left
                    },
                    right: if !ex {
                        Pen::Empty
                    } else {
                        dw.right
                    },
                    down: if ey0 {
                        Pen::Empty
                    } else {
                        dw.down
                    },
                    up: if ey0 {
                        dw.up
                    } else {
                        Pen::Empty
                    },
                },
            ),
            _ => Field::Empty,
        }
    } else {
        f1
    }
}

/// A cell index inside a `w + 1` column grid stays inside the cell array.
proof fn lemma_idx_bounds(w: int, h: int, x: int, y: int)
    requires
        0 <= x <= w,
        0 <= y <= h,
    ensures
        0 <= y * (w + 1) + x < (w + 1) * (h + 1),
{
    assert(0 <= y * (w + 1) + x < (w + 1) * (h + 1)) by (nonlinear_arith)
        requires
            0 <= x <= w,
            0 <= y <= h,
    ;
}

/// Distinct cells have distinct indices.
proof fn lemma_idx_injective(w: int, x1: int, y1: int, x2: int, y2: int)
    requires
        0 <= x1 <= w,
        0 <= x2 <= w,
        0 <= y1,
        0 <= y2,
        !(x1 == x2 && y1 == y2),
    ensures
        y1 * (w + 1) + x1 != y2 * (w + 1) + x2,
{
    assert(y1 * (w + 1) + x1 != y2 * (w + 1) + x2) by (nonlinear_arith)
        requires
            0 <= x1 <= w,
            0 <= x2 <= w,
            0 <= y1,
            0 <= y2,
            !(x1 == x2 && y1 == y2),
    ;
}

/// The total lookup from a cell's four line weights to its box-drawing
/// glyph; the degenerate all-empty drawing maps to a blank.
pub open spec fn spec_glyph(dw: FieldDrawing) -> char {
    match (dw.up, dw.right, dw.down, dw.left) {
        (Pen::Empty, Pen::Empty, Pen::Empty, Pen::Empty) => ' ',
        (Pen::Empty, Pen::Empty, Pen::Empty, Pen::Thin) => '\u{2574}',
        (Pen::Empty, Pen::Empty, Pen::Thin, Pen::Empty) => '\u{2577}',
        (Pen::Empty, Pen::Empty, Pen::Thin, Pen::Thin) => '\u{2510}',
        (Pen::Empty, Pen::Thin, Pen::Empty, Pen::Empty) => '\u{2576}',
        (Pen::Empty, Pen::Thin, Pen::Empty, Pen::Thin) => '\u{2500}',
        (Pen::Empty, Pen::Thin, Pen::Thin, Pen::Empty) => '\u{250c}',
        (Pen::Empty, Pen::Thin, Pen::Thin, Pen::Thin) => '\u{252c}',
        (Pen::Thin, Pen::Empty, Pen::Empty, Pen::Empty) => '\u{2575}',
        (Pen::Thin, Pen::Empty, Pen::Empty, Pen::Thin) => '\u{2518}',
        (Pen::Thin, Pen::Empty, Pen::Thin, Pen::Empty) => '\u{2502}',
        (Pen::Thin, Pen::Empty, Pen::Thin, Pen::Thin) => '\u{2524}',
        (Pen::Thin, Pen::Thin, Pen::Empty, Pen::Empty) => '\u{2514}',
        (Pen::Thin, Pen::Thin, Pen::Empty, Pen::Thin) => '\u{2534}',
        (Pen::Thin, Pen::Thin, Pen::Thin, Pen::Empty) => '\u{251c}',
        (Pen::Thin, Pen::Thin, Pen::Thin, Pen::Thin) => '\u{253c}',
        (Pen::Empty, Pen::Empty, Pen::Empty, Pen::Thick) => '\u{2578}',
        (Pen::Empty, Pen::Empty, Pen::Thick, Pen::Empty) => '\u{257b}',
        (Pen::Empty, Pen::Empty, Pen::Thick, Pen::Thick) => '\u{2513}',
        (Pen::Empty, Pen::Thick, Pen::Empty, Pen::Empty) => '\u{257a}',
        (Pen::Empty, Pen::Thick, Pen::Empty, Pen::Thick) => '\u{2501}',
        (Pen::Empty, Pen::Thick, Pen::Thick, Pen::Empty) => '\u{250f}',
        (Pen::Empty, Pen::Thick, Pen::Thick, Pen::Thick) => '\u{2533}',
        (Pen::Thick, Pen::Empty, Pen::Empty, Pen::Empty) => '\u{2579}',
        (Pen::Thick, Pen::Empty, Pen::Empty, Pen::Thick) => '\u{251b}',
        (Pen::Thick, Pen::Empty, Pen::Thick, Pen::Empty) => '\u{2503}',
        (Pen::Thick, Pen::Empty, Pen::Thick, Pen::Thick) => '\u{252b}',
        (Pen::Thick, Pen::Thick, Pen::Empty, Pen::Empty) => '\u{2517}',
        (Pen::Thick, Pen::Thick, Pen::Empty, Pen::Thick) => '\u{253b}',
        (Pen::Thick, Pen::Thick, Pen::Thick, Pen::Empty) => '\u{2523}',
        (Pen::Thick, Pen::Thick, Pen::Thick, Pen::Thick) => '\u{254b}',
        (Pen::Empty, Pen::Empty, Pen::Thick, Pen::Thin) => '\u{2512}',
        (Pen::Empty, Pen::Empty, Pen::Thin, Pen::Thick) => '\u{2511}',
        (Pen::Empty, Pen::Thick, Pen::Empty, Pen::Thin) => '\u{257c}',
        (Pen::Empty, Pen::Thick, Pen::Thick, Pen::Thin) => '\u{2532}',
        (Pen::Empty, Pen::Thick, Pen::Thin, Pen::Empty) => '\u{250d}',
        (Pen::Empty, Pen::Thick, Pen::Thin, Pen::Thick) => '\u{252f}',
        (Pen::Empty, Pen::Thick, Pen::Thin, Pen::Thin) => '\u{252e}',
        (Pen::Empty, Pen::Thin, Pen::Empty, Pen::Thick) => '\u{257e}',
        (Pen::Empty, Pen::Thin, Pen::Thick, Pen::Empty) => '\u{250e}',
        (Pen::Empty, Pen::Thin, Pen::Thick, Pen::Thick) => '\u{2531}',
        (Pen::Empty, Pen::Thin, Pen::Thick, Pen::Thin) => '\u{2530}',
        (Pen::Empty, Pen::Thin, Pen::Thin, Pen::Thick) => '\u{252d}',
        (Pen::Thick, Pen::Empty, Pen::Empty, Pen::Thin) => '\u{251a}',
        (Pen::Thick, Pen::Empty, Pen::Thick, Pen::Thin) => '\u{2528}',
        (Pen::Thick, Pen::Empty, Pen::Thin, Pen::Empty) => '\u{257f}',
        (Pen::Thick, Pen::Empty, Pen::Thin, Pen::Thick) => '\u{2529}',
        (Pen::Thick, Pen::Empty, Pen::Thin, Pen::Thin) => '\u{2526}',
        (Pen::Thick, Pen::Thick, Pen::Empty, Pen::Thin) => '\u{253a}',
        (Pen::Thick, Pen::Thick, Pen::Thick, Pen::Thin) => '\u{254a}',
        (Pen::Thick, Pen::Thick, Pen::Thin, Pen::Empty) => '\u{2521}',
        (Pen::Thick, Pen::Thick, Pen::Thin, Pen::Thick) => '\u{2547}',
        (Pen::Thick, Pen::Thick, Pen::Thin, Pen::Thin) => '\u{2544}',
        (Pen::Thick, Pen::Thin, Pen::Empty, Pen::Empty) => '\u{2516}',
        (Pen::Thick, Pen::Thin, Pen::Empty, Pen::Thick) => '\u{2539}',
        (Pen::Thick, Pen::Thin, Pen::Empty, Pen::Thin) => '\u{2538}',
        (Pen::Thick, Pen::Thin, Pen::Thick, Pen::Empty) => '\u{2520}',
        (Pen::Thick, Pen::Thin, Pen::Thick, Pen::Thick) => '\u{2549}',
        (Pen::Thick, Pen::Thin, Pen::Thick, Pen::Thin) => '\u{2542}',
        (Pen::Thick, Pen::Thin, Pen::Thin, Pen::Empty) => '\u{251e}',
        (Pen::Thick, Pen::Thin, Pen::Thin, Pen::Thick) => '\u{2543}',
        (Pen::Thick, Pen::Thin, Pen::Thin, Pen::Thin) => '\u{2540}',
        (Pen::Thin, Pen::Empty, Pen::Empty, Pen::Thick) => '\u{2519}',
        (Pen::Thin, Pen::Empty, Pen::Thick, Pen::Empty) => '\u{257d}',
        (Pen::Thin, Pen::Empty, Pen::Thick, Pen::Thick) => '\u{252a}',
        (Pen::Thin, Pen::Empty, Pen::Thick, Pen::Thin) => '\u{2527}',
        (Pen::Thin, Pen::Empty, Pen::Thin, Pen::Thick) => '\u{2525}',
        (Pen::Thin, Pen::Thick, Pen::Empty, Pen::Empty) => '\u{2515}',
        (Pen::Thin, Pen::Thick, Pen::Empty, Pen::Thick) => '\u{2537}',
        (Pen::Thin, Pen::Thick, Pen::Empty, Pen::Thin) => '\u{2536}',
        (Pen::Thin, Pen::Thick, Pen::Thick, Pen::Empty) => '\u{2522}',
        (Pen::Thin, Pen::Thick, Pen::Thick, Pen::Thick) => '\u{2548}',
        (Pen::Thin, Pen::Thick, Pen::Thin, Pen::Thin) => '\u{253e}',
        (Pen::Thin, Pen::Thick, Pen::Thick, Pen::Thin) => '\u{2546}',
        (Pen::Thin, Pen::Thick, Pen::Thin, Pen::Empty) => '\u{251d}',
        (Pen::Thin, Pen::Thick, Pen::Thin, Pen::Thick) => '\u{253f}',
        (Pen::Thin, Pen::Thin, Pen::Empty, Pen::Thick) => '\u{2535}',
        (Pen::Thin, Pen::Thin, Pen::Thick, Pen::Empty) => '\u{251f}',
        (Pen::Thin, Pen::Thin, Pen::Thick, Pen::Thick) => '\u{2545}',
        (Pen::Thin, Pen::Thin, Pen::Thick, Pen::Thin) => '\u{2541}',
        (Pen::Thin, Pen::Thin, Pen::Thin, Pen::Thick) => '\u{253d}',
    }
}

impl Grid {
    /// Resolve a cell's four line weights into one box-drawing glyph; the
    /// lookup is total: every combination has a defined character.
    pub fn render_field_drawing(dw: FieldDrawing) -> (r: char)
        ensures
            r == spec_glyph(dw),
    {
        match (dw.up, dw.right, dw.down, dw.left) {
            (Pen::Empty, Pen::Empty, Pen::Empty, Pen::Empty) => ' ',
            (Pen::Empty, Pen::Empty, Pen::Empty, Pen::Thin) => '\u{2574}',
            (Pen::Empty, Pen::Empty, Pen::Thin, Pen::Empty) => '\u{2577}',
            (Pen::Empty, Pen::Empty, Pen::Thin, Pen::Thin) => '\u{2510}',
            (Pen::Empty, Pen::Thin, Pen::Empty, Pen::Empty) => '\u{2576}',
            (Pen::Empty, Pen::Thin, Pen::Empty, Pen::Thin) => '\u{2500}',
            (Pen::Empty, Pen::Thin, Pen::Thin, Pen::Empty) => '\u{250c}',
            (Pen::Empty, Pen::Thin, Pen::Thin, Pen::Thin) => '\u{252c}',
            (Pen::Thin, Pen::Empty, Pen::Empty, Pen::Empty) => '\u{2575}',
            (Pen::Thin, Pen::Empty, Pen::Empty, Pen::Thin) => '\u{2518}',
            (Pen::Thin, Pen::Empty, Pen::Thin, Pen::Empty) => '\u{2502}',
            (Pen::Thin, Pen::Empty, Pen::Thin, Pen::Thin) => '\u{2524}',
            (Pen::Thin, Pen::Thin, Pen::Empty, Pen::Empty) => '\u{2514}',
            (Pen::Thin, Pen::Thin, Pen::Empty, Pen::Thin) => '\u{2534}',
            (Pen::Thin, Pen::Thin, Pen::Thin, Pen::Empty) => '\u{251c}',
            (Pen::Thin, Pen::Thin, Pen::Thin, Pen::Thin) => '\u{253c}',
            (Pen::Empty, Pen::Empty, Pen::Empty, Pen::Thick) => '\u{2578}',
            (Pen::Empty, Pen::Empty, Pen::Thick, Pen::Empty) => '\u{257b}',
            (Pen::Empty, Pen::Empty, Pen::Thick, Pen::Thick) => '\u{2513}',
            (Pen::Empty, Pen::Thick, Pen::Empty, Pen::Empty) => '\u{257a}',
            (Pen::Empty, Pen::Thick, Pen::Empty, Pen::Thick) => '\u{2501}',
            (Pen::Empty, Pen::Thick, Pen::Thick, Pen::Empty) => '\u{250f}',
            (Pen::Empty, Pen::Thick, Pen::Thick, Pen::Thick) => '\u{2533}',
            (Pen::Thick, Pen::Empty, Pen::Empty, Pen::Empty) => '\u{2579}',
            (Pen::Thick, Pen::Empty, Pen::Empty, Pen::Thick) => '\u{251b}',
            (Pen::Thick, Pen::Empty, Pen::Thick, Pen::Empty) => '\u{2503}',
            (Pen::Thick, Pen::Empty, Pen::Thick, Pen::Thick) => '\u{252b}',
            (Pen::Thick, Pen::Thick, Pen::Empty, Pen::Empty) => '\u{2517}',
            (Pen::Thick, Pen::Thick, Pen::Empty, Pen::Thick) => '\u{253b}',
            (Pen::Thick, Pen::Thick, Pen::Thick, Pen::Empty) => '\u{2523}',
            (Pen::Thick, Pen::Thick, Pen::Thick, Pen::Thick) => '\u{254b}',
            (Pen::Empty, Pen::Empty, Pen::Thick, Pen::Thin) => '\u{2512}',
            (Pen::Empty, Pen::Empty, Pen::Thin, Pen::Thick) => '\u{2511}',
            (Pen::Empty, Pen::Thick, Pen::Empty, Pen::Thin) => '\u{257c}',
            (Pen::Empty, Pen::Thick, Pen::Thick, Pen::Thin) => '\u{2532}',
            (Pen::Empty, Pen::Thick, Pen::Thin, Pen::Empty) => '\u{250d}',
            (Pen::Empty, Pen::Thick, Pen::Thin, Pen::Thick) => '\u{252f}',
            (Pen::Empty, Pen::Thick, Pen::Thin, Pen::Thin) => '\u{252e}',
            (Pen::Empty, Pen::Thin, Pen::Empty, Pen::Thick) => '\u{257e}',
            (Pen::Empty, Pen::Thin, Pen::Thick, Pen::Empty) => '\u{250e}',
            (Pen::Empty, Pen::Thin, Pen::Thick, Pen::Thick) => '\u{2531}',
            (Pen::Empty, Pen::Thin, Pen::Thick, Pen::Thin) => '\u{2530}',
            (Pen::Empty, Pen::Thin, Pen::Thin, Pen::Thick) => '\u{252d}',
            (Pen::Thick, Pen::Empty, Pen::Empty, Pen::Thin) => '\u{251a}',
            (Pen::Thick, Pen::Empty, Pen::Thick, Pen::Thin) => '\u{2528}',
            (Pen::Thick, Pen::Empty, Pen::Thin, Pen::Empty) => '\u{257f}',
            (Pen::Thick, Pen::Empty, Pen::Thin, Pen::Thick) => '\u{2529}',
            (Pen::Thick, Pen::Empty, Pen::Thin, Pen::Thin) => '\u{2526}',
            (Pen::Thick, Pen::Thick, Pen::Empty, Pen::Thin) => '\u{253a}',
            (Pen::Thick, Pen::Thick, Pen::Thick, Pen::Thin) => '\u{254a}',
            (Pen::Thick, Pen::Thick, Pen::Thin, Pen::Empty) => '\u{2521}',
            (Pen::Thick, Pen::Thick, Pen::Thin, Pen::Thick) => '\u{2547}',
            (Pen::Thick, Pen::Thick, Pen::Thin, Pen::Thin) => '\u{2544}',
            (Pen::Thick, Pen::Thin, Pen::Empty, Pen::Empty) => '\u{2516}',
            (Pen::Thick, Pen::Thin, Pen::Empty, Pen::Thick) => '\u{2539}',
            (Pen::Thick, Pen::Thin, Pen::Empty, Pen::Thin) => '\u{2538}',
            (Pen::Thick, Pen::Thin, Pen::Thick, Pen::Empty) => '\u{2520}',
            (Pen::Thick, Pen::Thin, Pen::Thick, Pen::Thick) => '\u{2549}',
            (Pen::Thick, Pen::Thin, Pen::Thick, Pen::Thin) => '\u{2542}',
            (Pen::Thick, Pen::Thin, Pen::Thin, Pen::Empty) => '\u{251e}',
            (Pen::Thick, Pen::Thin, Pen::Thin, Pen::Thick) => '\u{2543}',
            (Pen::Thick, Pen::Thin, Pen::Thin, Pen::Thin) => '\u{2540}',
            (Pen::Thin, Pen::Empty, Pen::Empty, Pen::Thick) => '\u{2519}',
            (Pen::Thin, Pen::Empty, Pen::Thick, Pen::Empty) => '\u{257d}',
            (Pen::Thin, Pen::Empty, Pen::Thick, Pen::Thick) => '\u{252a}',
            (Pen::Thin, Pen::Empty, Pen::Thick, Pen::Thin) => '\u{2527}',
            (Pen::Thin, Pen::Empty, Pen::Thin, Pen::Thick) => '\u{2525}',
            (Pen::Thin, Pen::Thick, Pen::Empty, Pen::Empty) => '\u{2515}',
            (Pen::Thin, Pen::Thick, Pen::Empty, Pen::Thick) => '\u{2537}',
            (Pen::Thin, Pen::Thick, Pen::Empty, Pen::Thin) => '\u{2536}',
            (Pen::Thin, Pen::Thick, Pen::Thick, Pen::Empty) => '\u{2522}',
            (Pen::Thin, Pen::Thick, Pen::Thick, Pen::Thick) => '\u{2548}',
            (Pen::Thin, Pen::Thick, Pen::Thin, Pen::Thin) => '\u{253e}',
            (Pen::Thin, Pen::Thick, Pen::Thick, Pen::Thin) => '\u{2546}',
            (Pen::Thin, Pen::Thick, Pen::Thin, Pen::Empty) => '\u{251d}',
            (Pen::Thin, Pen::Thick, Pen::Thin, Pen::Thick) => '\u{253f}',
            (Pen::Thin, Pen::Thin, Pen::Empty, Pen::Thick) => '\u{2535}',
            (Pen::Thin, Pen::Thin, Pen::Thick, Pen::Empty) => '\u{251f}',
            (Pen::Thin, Pen::Thin, Pen::Thick, Pen::Thick) => '\u{2545}',
            (Pen::Thin, Pen::Thin, Pen::Thick, Pen::Thin) => '\u{2541}',
            (Pen::Thin, Pen::Thin, Pen::Thin, Pen::Thick) => '\u{253d}',
        }
    }

    /// The array is exactly as large as the coordinate space.
    pub open spec fn wf(self) -> bool {
        0 <= self.w && 0 <= self.h && self.grid@.len() == (self.w + 1) * (self.h + 1)
    }

    /// The array index of cell `(x, y)`.
    pub open spec fn spec_idx(self, x: int, y: int) -> int {
        y * (self.w + 1) + x
    }

    /// The field at cell `(x, y)`.
    pub open spec fn spec_field(self, x: int, y: int) -> Field {
        self.grid@[self.spec_idx(x, y)]
    }

    /// Whether `(x, y)` addresses a cell of this grid.
    pub open spec fn spec_in_grid(self, x: int, y: int) -> bool {
        0 <= x <= self.w && 0 <= y <= self.h
    }

    /// A fresh grid of `(w + 1) * (h + 1)` empty fields.
    pub fn new(w: i16, h: i16) -> (r: Grid)
        requires
            w >= 0,
            h >= 0,
        ensures
            r.wf(),
            r.w == w,
            r.h == h,
            forall|x: int, y: int| r.spec_in_grid(x, y) ==> r.spec_field(x, y) == Field::Empty,
    {
        proof {
            assert((w + 1) * (h + 1) <= 32768 * 32768) by (nonlinear_arith)
                requires
                    0 <= w < 32768,
                    0 <= h < 32768,
            ;
        }
        let count: usize = (w as usize + 1) * (h as usize + 1);
        let mut grid: Vec<Field> = Vec::new();
        let mut i: usize = 0;
        while i < count
            invariant
                i <= count,
                grid@.len() == i,
                forall|k: int| 0 <= k < i ==> grid@[k] == Field::Empty,
            decreases count - i,
        {
            grid.push(Field::Empty);
            i += 1;
        }
        let r = Grid { w, h, grid };
        proof {
            assert forall|x: int, y: int| r.spec_in_grid(x, y) implies r.spec_field(x, y)
                == Field::Empty by {
                lemma_idx_bounds(w as int, h as int, x, y);
            }
        }
        r
    }

    /// The array index of cell `(x, y)`.
    pub fn field_idx(&self, x: i16, y: i16) -> (r: usize)
        requires
            self.wf(),
            self.spec_in_grid(x as int, y as int),
        ensures
            r as int == self.spec_idx(x as int, y as int),
            r < self.grid@.len(),
    {
        proof {
            lemma_idx_bounds(self.w as int, self.h as int, x as int, y as int);
            assert((self.w + 1) * (self.h + 1) <= 32768 * 32768) by (nonlinear_arith)
                requires
                    0 <= self.w < 32768,
                    0 <= self.h < 32768,
            ;
        }
        y as usize * (self.w as usize + 1) + x as usize
    }

    /// The field at cell `(x, y)`.
    pub fn field(&self, x: i16, y: i16) -> (r: Field)
        requires
            self.wf(),
            self.spec_in_grid(x as int, y as int),
        ensures
            r == self.spec_field(x as int, y as int),
    {
        let idx = self.field_idx(x, y);
        self.grid[idx]
    }

    /// A mutable reference to the field at cell `(x, y)`; the grid afterward
    /// holds whatever the caller leaves behind the reference.
    pub fn field_mut(&mut self, x: i16, y: i16) -> (f: &mut Field)
        requires
            old(self).wf(),
            old(self).spec_in_grid(x as int, y as int),
        ensures
            *f == old(self).spec_field(x as int, y as int),
            final(self).w == old(self).w,
            final(self).h == old(self).h,
            final(self).wf(),
            final(self).grid@ == old(self).grid@.update(
                old(self).spec_idx(x as int, y as int),
                *final(f),
            ),
    {
        let idx = self.field_idx(x, y);
        &mut self.grid[idx]
    }

    /// Merge one directional pen into one cell; every other cell stays.
    pub fn paint(&mut self, x: i16, y: i16, d: Direction, p: Pen)
        requires
            old(self).wf(),
            old(self).spec_in_grid(x as int, y as int),
        ensures
            final(self).wf(),
            final(self).w == old(self).w,
            final(self).h == old(self).h,
            final(self).spec_field(x as int, y as int) == spec_painted(
                old(self).spec_field(x as int, y as int),
                d,
                p,
            ),
            forall|xx: int, yy: int|
                old(self).spec_in_grid(xx, yy) && !(xx == x as int && yy == y as int)
                    ==> final(self).spec_field(xx, yy) == old(self).spec_field(xx, yy),
    {
        let f = self.field_mut(x, y);
        *f = match *f {
            Field::Drawing(dw) => Field::Drawing(dw.combine(FieldDrawing::new_from(d, p))),
            _ => Field::Drawing(FieldDrawing::new_from(d, p)),
        };
        proof {
            lemma_idx_bounds(self.w as int, self.h as int, x as int, y as int);
            assert forall|xx: int, yy: int|
                old(self).spec_in_grid(xx, yy) && !(xx == x as int && yy == y as int) implies (
            self.spec_field(xx, yy) == old(self).spec_field(xx, yy)) by {
                lemma_idx_bounds(self.w as int, self.h as int, xx, yy);
                lemma_idx_injective(self.w as int, xx, yy, x as int, y as int);
            }
        }
    }

    /// Write one field into one cell; every other cell stays.
    fn set_field(&mut self, x: i16, y: i16, nf: Field)
        requires
            old(self).wf(),
            old(self).spec_in_grid(x as int, y as int),
        ensures
            final(self).wf(),
            final(self).w == old(self).w,
            final(self).h == old(self).h,
            final(self).spec_field(x as int, y as int) == nf,
            forall|xx: int, yy: int|
                old(self).spec_in_grid(xx, yy) && !(xx == x as int && yy == y as int)
                    ==> final(self).spec_field(xx, yy) == old(self).spec_field(xx, yy),
    {
        let f = self.field_mut(x, y);
        *f = nf;
        proof {
            lemma_idx_bounds(self.w as int, self.h as int, x as int, y as int);
            assert forall|xx: int, yy: int|
                old(self).spec_in_grid(xx, yy) && !(xx == x as int && yy == y as int) implies (
            self.spec_field(xx, yy) == old(self).spec_field(xx, yy)) by {
                lemma_idx_bounds(self.w as int, self.h as int, xx, yy);
                lemma_idx_injective(self.w as int, xx, yy, x as int, y as int);
            }
        }
    }

    /// Reset the fully interior cells of a rectangle to empty; cells on the
    /// rectangle's edges lose only their inward-facing arms, so an outward
    /// border drawn around the rectangle survives.
    pub fn clear(&mut self, x: i16, y: i16, w: i16, h: i16)
        requires
            old(self).wf(),
            w >= 0,
            h >= 0,
            0 <= x,
            0 <= y,
            x + w <= old(self).w + 1,
            y + h <= old(self).h + 1,
        ensures
            final(self).wf(),
            final(self).w == old(self).w,
            final(self).h == old(self).h,
            forall|cx: int, cy: int|
                old(self).spec_in_grid(cx, cy) ==> final(self).spec_field(cx, cy) == (if x <= cx
                    < x + w && y <= cy < y + h {
                    spec_cleared(
                        old(self).spec_field(cx, cy),
                        cx == x as int,
                        cx == x + w - 1,
                        cy == y as int,
                        cy == y + h - 1,
                    )
                } else {
                    old(self).spec_field(cx, cy)
                }),
    {
        let ghost g0 = *old(self);
        let mut xxi: i32 = x as i32;
        while xxi < x as i32 + w as i32
            invariant
                self.wf(),
                self.w == g0.w,
                self.h == g0.h,
                w >= 0,
                h >= 0,
                0 <= x,
                0 <= y,
                x + w <= g0.w + 1,
                y + h <= g0.h + 1,
                x <= xxi <= x + w,
                forall|cx: int, cy: int|
                    g0.spec_in_grid(cx, cy) ==> self.spec_field(cx, cy) == (if x <= cx < xxi && y
                        <= cy < y + h {
                        spec_cleared(
                            g0.spec_field(cx, cy),
                            cx == x as int,
                            cx == x + w - 1,
                            cy == y as int,
                            cy == y + h - 1,
                        )
                    } else {
                        g0.spec_field(cx, cy)
                    }),
            decreases x + w - xxi,
        {
            let xx: i16 = xxi as i16;
            let mut yyi: i32 = y as i32;
            while yyi < y as i32 + h as i32
                invariant
                    self.wf(),
                    self.w == g0.w,
                    self.h == g0.h,
                    w >= 0,
                    h >= 0,
                    0 <= x,
                    0 <= y,
                    x + w <= g0.w + 1,
                    y + h <= g0.h + 1,
                    x <= xxi < x + w,
                    xx == xxi,
                    y <= yyi <= y + h,
                    forall|cx: int, cy: int|
                        g0.spec_in_grid(cx, cy) ==> self.spec_field(cx, cy) == (if (x <= cx < xxi
                            && y <= cy < y + h) || (cx == xxi && y <= cy < yyi) {
                            spec_cleared(
                                g0.spec_field(cx, cy),
                                cx == x as int,
                                cx == x + w - 1,
                                cy == y as int,
                                cy == y + h - 1,
                            )
                        } else {
                            g0.spec_field(cx, cy)
                        }),
                decreases y + h - yyi,
            {
                let yy: i16 = yyi as i16;
                let ex0 = xx == x;
                let ex1 = xx as i32 == x as i32 + w as i32 - 1;
                let ey0 = yy == y;
                let ey1 = yy as i32 == y as i32 + h as i32 - 1;
                let f = self.field(xx, yy);
                let nf = cleared_field(f, ex0, ex1, ey0, ey1);
                self.set_field(xx, yy, nf);
                yyi += 1;
            }
            xxi += 1;
        }
    }

    /// Overwrite a run of cells starting at `(x, y)` with the characters of
    /// `s`; a null character leaves its cell untouched.
    pub fn paint_decoration(&mut self, x: i16, y: i16, s: &str)
        requires
            old(self).wf(),
            0 <= x,
            0 <= y <= old(self).h,
            x + s@.len() <= old(self).w + 1,
        ensures
            final(self).wf(),
            final(self).w == old(self).w,
            final(self).h == old(self).h,
            forall|n: int|
                0 <= n < s@.len() && s@[n] != '\u{0}' ==> final(self).spec_field(x + n, y as int)
                    == Field::Decoration(s@[n]),
            forall|cx: int, cy: int|
                old(self).spec_in_grid(cx, cy) && !(cy == y as int && x <= cx < x + s@.len()
                    && s@[cx - x] != '\u{0}') ==> final(self).spec_field(cx, cy) == old(
                    self,
                ).spec_field(cx, cy),
    {
        let ghost g0 = *old(self);
        let len = s.unicode_len();
        let mut n: usize = 0;
        while n < len
            invariant
                self.wf(),
                self.w == g0.w,
                self.h == g0.h,
                0 <= x,
                0 <= y <= g0.h,
                len == s@.len(),
                x + len <= g0.w + 1,
                n <= len,
                forall|k: int|
                    0 <= k < n && s@[k] != '\u{0}' ==> self.spec_field(x + k, y as int)
                        == Field::Decoration(s@[k]),
                forall|cx: int, cy: int|
                    g0.spec_in_grid(cx, cy) && !(cy == y as int && x <= cx < x + n && s@[cx - x]
                        != '\u{0}') ==> self.spec_field(cx, cy) == g0.spec_field(cx, cy),
            decreases len - n,
        {
            let c = s.get_char(n);
            if c != '\u{0}' {
                self.set_field(x + n as i16, y, Field::Decoration(c));
            }
            n += 1;
        }
    }
}


/// The unit step of a painting direction.
pub open spec fn spec_dir_step(d: Direction) -> (int, int) {
    match d {
        Direction::Right => (1, 0),
        Direction::Left => (-1, 0),
        Direction::Down => (0, 1),
        Direction::Up => (0, -1),
    }
}

/// The direction opposite to `d`.
pub open spec fn spec_dir_opposite(d: Direction) -> Direction {
    match d {
        Direction::Right => Direction::Left,
        Direction::Left => Direction::Right,
        Direction::Down => Direction::Up,
        Direction::Up => Direction::Down,
    }
}

/// The column of the `i`th cell of a wall run.
pub open spec fn spec_wall_x(x0: int, d: Direction, i: int) -> int {
    x0 + i * spec_dir_step(d).0
}

/// The row of the `i`th cell of a wall run.
pub open spec fn spec_wall_y(y0: int, d: Direction, i: int) -> int {
    y0 + i * spec_dir_step(d).1
}

/// Whether `(cx, cy)` is one of the `len + 1` cells of a wall run.
pub open spec fn spec_on_wall(x0: int, y0: int, d: Direction, len: int, cx: int, cy: int) -> bool {
    exists|i: int|
        0 <= i <= len && cx == #[trigger] spec_wall_x(x0, d, i) && cy == spec_wall_y(y0, d, i)
}

/// What one cell of a painted wall holds afterward: an interior cell gains
/// both the forward and the backward arm; an endpoint gains only its inward
/// arm, and only if the run is inclusive.
pub open spec fn spec_wall_cell(
    f: Field,
    i: int,
    len: int,
    inclusive: bool,
    d: Direction,
    p: Pen,
) -> Field {
    let d2 = spec_dir_opposite(d);
    if len == 0 {
        if inclusive {
            spec_painted(spec_painted(f, d, p), d2, p)
        } else {
            f
        }
    } else if i == 0 {
        if inclusive {
            spec_painted(f, d, p)
        } else {
            f
        }
    } else if i == len {
        if inclusive {
            spec_painted(f, d2, p)
        } else {
            f
        }
    } else {
        spec_painted(spec_painted(f, d2, p), d, p)
    }
}

/// Multiplication by a unit step is the identity, the negation, or zero.
pub proof fn lemma_unit_mul_pub(i: int, d: Direction)
    ensures
        spec_dir_step(d).0 == 1 ==> i * spec_dir_step(d).0 == i,
        spec_dir_step(d).0 == -1 ==> i * spec_dir_step(d).0 == -i,
        spec_dir_step(d).0 == 0 ==> i * spec_dir_step(d).0 == 0,
        spec_dir_step(d).1 == 1 ==> i * spec_dir_step(d).1 == i,
        spec_dir_step(d).1 == -1 ==> i * spec_dir_step(d).1 == -i,
        spec_dir_step(d).1 == 0 ==> i * spec_dir_step(d).1 == 0,
{
    lemma_unit_mul(i, d);
}

/// Multiplication by a unit step is the identity, the negation, or zero.
proof fn lemma_unit_mul(i: int, d: Direction)
    ensures
        spec_dir_step(d).0 == 1 ==> i * spec_dir_step(d).0 == i,
        spec_dir_step(d).0 == -1 ==> i * spec_dir_step(d).0 == -i,
        spec_dir_step(d).0 == 0 ==> i * spec_dir_step(d).0 == 0,
        spec_dir_step(d).1 == 1 ==> i * spec_dir_step(d).1 == i,
        spec_dir_step(d).1 == -1 ==> i * spec_dir_step(d).1 == -i,
        spec_dir_step(d).1 == 0 ==> i * spec_dir_step(d).1 == 0,
{
    assert(i * 1 == i && i * (-1) == -i && i * 0 == 0) by (nonlinear_arith);
}

/// Every cell of a wall run lies between its two endpoints.
proof fn lemma_wall_coord(x0: int, y0: int, d: Direction, len: int, i: int, w: int, h: int)
    requires
        0 <= i <= len,
        0 <= x0 <= w,
        0 <= y0 <= h,
        0 <= spec_wall_x(x0, d, len) <= w,
        0 <= spec_wall_y(y0, d, len) <= h,
    ensures
        0 <= spec_wall_x(x0, d, i) <= w,
        0 <= spec_wall_y(y0, d, i) <= h,
{
    lemma_unit_mul(i, d);
    lemma_unit_mul(len, d);
}

/// Distinct indices of a wall run address distinct cells.
proof fn lemma_wall_distinct(x0: int, y0: int, d: Direction, i: int, j: int)
    requires
        i != j,
    ensures
        !(spec_wall_x(x0, d, i) == spec_wall_x(x0, d, j) && spec_wall_y(y0, d, i) == spec_wall_y(
            y0,
            d,
            j,
        )),
{
    lemma_unit_mul(i, d);
    lemma_unit_mul(j, d);
}

impl Grid {
    /// Paint a straight run of `len` cells from `(x0, y0)` toward `d`: each
    /// interior cell gains both perpendicular arms so adjoining walls
    /// connect; the two endpoints gain their inward arm only if `inclusive`.
    pub fn paint_wall(&mut self, x0: i16, y0: i16, len: i16, d: Direction, inclusive: bool, p: Pen)
        requires
            old(self).wf(),
            len >= 0,
            old(self).spec_in_grid(x0 as int, y0 as int),
            old(self).spec_in_grid(
                spec_wall_x(x0 as int, d, len as int),
                spec_wall_y(y0 as int, d, len as int),
            ),
        ensures
            final(self).wf(),
            final(self).w == old(self).w,
            final(self).h == old(self).h,
            forall|i: int|
                0 <= i <= len ==> final(self).spec_field(
                    #[trigger] spec_wall_x(x0 as int, d, i),
                    spec_wall_y(y0 as int, d, i),
                ) == spec_wall_cell(
                    old(self).spec_field(spec_wall_x(x0 as int, d, i), spec_wall_y(y0 as int, d, i)),
                    i,
                    len as int,
                    inclusive,
                    d,
                    p,
                ),
            forall|cx: int, cy: int|
                old(self).spec_in_grid(cx, cy) && !spec_on_wall(
                    x0 as int,
                    y0 as int,
                    d,
                    len as int,
                    cx,
                    cy,
                ) ==> final(self).spec_field(cx, cy) == old(self).spec_field(cx, cy),
    {
        let ghost g0 = *old(self);
        let (dxe, dye): (i32, i32) = match d {
            Direction::Right => (1, 0),
            Direction::Left => (-1, 0),
            Direction::Down => (0, 1),
            Direction::Up => (0, -1),
        };
        let d2 = match d {
            Direction::Right => Direction::Left,
            Direction::Left => Direction::Right,
            Direction::Down => Direction::Up,
            Direction::Up => Direction::Down,
        };
        proof {
            assert(dxe as int == spec_dir_step(d).0 && dye as int == spec_dir_step(d).1);
            assert(d2 == spec_dir_opposite(d));
            lemma_unit_mul(0, d);
            lemma_unit_mul(len as int, d);
        }
        let x1: i16 = (x0 as i32 + len as i32 * dxe) as i16;
        let y1: i16 = (y0 as i32 + len as i32 * dye) as i16;
        proof {
            assert(x1 as int == spec_wall_x(x0 as int, d, len as int));
            assert(y1 as int == spec_wall_y(y0 as int, d, len as int));
        }

        if inclusive {
            self.paint(x0, y0, d, p);
        }
        proof {
            assert(spec_wall_x(x0 as int, d, 0) == x0 as int);
            assert(spec_wall_y(y0 as int, d, 0) == y0 as int);
            assert forall|j: int| 1 <= j <= len implies (self.spec_field(
                #[trigger] spec_wall_x(x0 as int, d, j),
                spec_wall_y(y0 as int, d, j),
            ) == g0.spec_field(spec_wall_x(x0 as int, d, j), spec_wall_y(y0 as int, d, j))) by {
                lemma_wall_coord(x0 as int, y0 as int, d, len as int, j, g0.w as int, g0.h as int);
                lemma_wall_distinct(x0 as int, y0 as int, d, j, 0);
            }
        }
        let mut i: i32 = 1;
        while i < len as i32
            invariant
                self.wf(),
                self.w == g0.w,
                self.h == g0.h,
                g0.wf(),
                0 <= len,
                len >= 1 ==> 1 <= i <= len,
                len == 0 ==> i == 1,
                dxe as int == spec_dir_step(d).0,
                dye as int == spec_dir_step(d).1,
                d2 == spec_dir_opposite(d),
                g0.spec_in_grid(x0 as int, y0 as int),
                g0.spec_in_grid(
                    spec_wall_x(x0 as int, d, len as int),
                    spec_wall_y(y0 as int, d, len as int),
                ),
                self.spec_field(spec_wall_x(x0 as int, d, 0), spec_wall_y(y0 as int, d, 0)) == (
                if inclusive {
                    spec_painted(g0.spec_field(x0 as int, y0 as int), d, p)
                } else {
                    g0.spec_field(x0 as int, y0 as int)
                }),
                forall|j: int|
                    1 <= j < i ==> self.spec_field(
                        #[trigger] spec_wall_x(x0 as int, d, j),
                        spec_wall_y(y0 as int, d, j),
                    ) == spec_painted(
                        spec_painted(
                            g0.spec_field(spec_wall_x(x0 as int, d, j), spec_wall_y(y0 as int, d, j)),
                            spec_dir_opposite(d),
                            p,
                        ),
                        d,
                        p,
                    ),
                forall|j: int|
                    i <= j <= len ==> self.spec_field(
                        #[trigger] spec_wall_x(x0 as int, d, j),
                        spec_wall_y(y0 as int, d, j),
                    ) == g0.spec_field(spec_wall_x(x0 as int, d, j), spec_wall_y(y0 as int, d, j)),
                forall|cx: int, cy: int|
                    g0.spec_in_grid(cx, cy) && !spec_on_wall(
                        x0 as int,
                        y0 as int,
                        d,
                        len as int,
                        cx,
                        cy,
                    ) ==> self.spec_field(cx, cy) == g0.spec_field(cx, cy),
            decreases len - i,
        {
            proof {
                lemma_unit_mul(i as int, d);
                lemma_wall_coord(x0 as int, y0 as int, d, len as int, i as int, g0.w as int, g0.h as int);
            }
            let xx: i16 = (x0 as i32 + i * dxe) as i16;
            let yy: i16 = (y0 as i32 + i * dye) as i16;
            proof {
                assert(xx as int == spec_wall_x(x0 as int, d, i as int));
                assert(yy as int == spec_wall_y(y0 as int, d, i as int));
                assert(spec_on_wall(x0 as int, y0 as int, d, len as int, xx as int, yy as int));
            }
            self.paint(xx, yy, d2, p);
            self.paint(xx, yy, d, p);
            proof {
                assert forall|j: int| i as int + 1 <= j <= len implies (self.spec_field(
                    #[trigger] spec_wall_x(x0 as int, d, j),
                    spec_wall_y(y0 as int, d, j),
                ) == g0.spec_field(spec_wall_x(x0 as int, d, j), spec_wall_y(y0 as int, d, j))) by {
                    lemma_wall_distinct(x0 as int, y0 as int, d, j, i as int);
                    lemma_wall_coord(x0 as int, y0 as int, d, len as int, j, g0.w as int, g0.h as int);
                }
                assert forall|j: int| 1 <= j < i as int + 1 implies (self.spec_field(
                    #[trigger] spec_wall_x(x0 as int, d, j),
                    spec_wall_y(y0 as int, d, j),
                ) == spec_painted(
                    spec_painted(
                        g0.spec_field(spec_wall_x(x0 as int, d, j), spec_wall_y(y0 as int, d, j)),
                        spec_dir_opposite(d),
                        p,
                    ),
                    d,
                    p,
                )) by {
                    if j < i as int {
                        lemma_wall_distinct(x0 as int, y0 as int, d, j, i as int);
                        lemma_wall_coord(x0 as int, y0 as int, d, len as int, j, g0.w as int, g0.h as int);
                    }
                }
                lemma_wall_distinct(x0 as int, y0 as int, d, 0, i as int);
                lemma_wall_coord(x0 as int, y0 as int, d, len as int, 0, g0.w as int, g0.h as int);
                assert forall|cx: int, cy: int|
                    g0.spec_in_grid(cx, cy) && !spec_on_wall(
                        x0 as int,
                        y0 as int,
                        d,
                        len as int,
                        cx,
                        cy,
                    ) implies (self.spec_field(cx, cy) == g0.spec_field(cx, cy)) by {
                    assert(!(cx == xx as int && cy == yy as int));
                }
            }
            i += 1;
        }
        if inclusive {
            proof {
                if len >= 1 {
                    lemma_wall_distinct(x0 as int, y0 as int, d, len as int, 0);
                }
                assert(spec_on_wall(x0 as int, y0 as int, d, len as int, x1 as int, y1 as int));
            }
            self.paint(x1, y1, d2, p);
        }
        proof {
            assert forall|i2: int| 0 <= i2 <= len implies (self.spec_field(
                #[trigger] spec_wall_x(x0 as int, d, i2),
                spec_wall_y(y0 as int, d, i2),
            ) == spec_wall_cell(
                g0.spec_field(spec_wall_x(x0 as int, d, i2), spec_wall_y(y0 as int, d, i2)),
                i2,
                len as int,
                inclusive,
                d,
                p,
            )) by {
                lemma_wall_coord(x0 as int, y0 as int, d, len as int, i2, g0.w as int, g0.h as int);
                if len >= 1 && i2 != 0 && i2 != len {
                    lemma_wall_distinct(x0 as int, y0 as int, d, i2, len as int);
                    lemma_wall_distinct(x0 as int, y0 as int, d, i2, 0);
                }
                if len >= 1 && i2 == 0 {
                    lemma_wall_distinct(x0 as int, y0 as int, d, 0, len as int);
                }
            }
        }
    }
}

} // verus!
