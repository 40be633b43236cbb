use grido::Direction;
use grido::Field;
use grido::FieldDrawing;
use grido::Grid;
use grido::Pen;

fn drawing(up: Pen, right: Pen, down: Pen, left: Pen) -> FieldDrawing {
    FieldDrawing { up, right, down, left }
}

#[test]
fn pen_combine_rules() {
    // Empty is the identity on both sides.
    for p in [Pen::Empty, Pen::Thin, Pen::Thick] {
        assert_eq!(Pen::combine(Pen::Empty, p), p);
        assert_eq!(Pen::combine(p, Pen::Empty), p);
        // Thick absorbs everything.
        assert_eq!(Pen::combine(Pen::Thick, p), Pen::Thick);
        assert_eq!(Pen::combine(p, Pen::Thick), Pen::Thick);
        // Idempotence.
        assert_eq!(Pen::combine(p, p), p);
    }
    assert_eq!(Pen::combine(Pen::Thin, Pen::Thin), Pen::Thin);
    // Commutativity over the whole table.
    for p1 in [Pen::Empty, Pen::Thin, Pen::Thick] {
        for p2 in [Pen::Empty, Pen::Thin, Pen::Thick] {
            assert_eq!(Pen::combine(p1, p2), Pen::combine(p2, p1));
        }
    }
}

#[test]
fn drawing_new_from_sets_one_direction() {
    let d = FieldDrawing::new_from(Direction::Right, Pen::Thick);
    assert_eq!(d, drawing(Pen::Empty, Pen::Thick, Pen::Empty, Pen::Empty));
    let d2 = FieldDrawing::new_from(Direction::Up, Pen::Thin);
    assert_eq!(d2, drawing(Pen::Thin, Pen::Empty, Pen::Empty, Pen::Empty));
}

#[test]
fn drawing_combine_is_idempotent_on_repeat() {
    let a = drawing(Pen::Thin, Pen::Empty, Pen::Thick, Pen::Empty);
    let b = drawing(Pen::Empty, Pen::Thin, Pen::Thin, Pen::Thick);
    let once = a.combine(b);
    let twice = once.combine(b);
    assert_eq!(once, twice);
    assert_eq!(a.combine(b), b.combine(a));
}

#[test]
fn glyph_lookup_is_total() {
    // Every one of the 81 pen combinations resolves to a glyph without
    // panicking; the degenerate drawing resolves to a blank.
    let pens = [Pen::Empty, Pen::Thin, Pen::Thick];
    let mut count = 0;
    for u in pens {
        for r in pens {
            for d in pens {
                for l in pens {
                    let g = Grid::render_field_drawing(drawing(u, r, d, l));
                    if (u, r, d, l) == (Pen::Empty, Pen::Empty, Pen::Empty, Pen::Empty) {
                        assert_eq!(g, ' ');
                    } else {
                        assert_ne!(g, ' ');
                    }
                    count += 1;
                }
            }
        }
    }
    assert_eq!(count, 81);
}

#[test]
fn glyph_samples() {
    assert_eq!(
        Grid::render_field_drawing(drawing(Pen::Thin, Pen::Thin, Pen::Thin, Pen::Thin)),
        '\u{253c}'
    );
    assert_eq!(
        Grid::render_field_drawing(drawing(Pen::Thick, Pen::Thick, Pen::Thick, Pen::Thick)),
        '\u{254b}'
    );
    assert_eq!(
        Grid::render_field_drawing(drawing(Pen::Empty, Pen::Thin, Pen::Empty, Pen::Thin)),
        '\u{2500}'
    );
    assert_eq!(
        Grid::render_field_drawing(drawing(Pen::Thick, Pen::Empty, Pen::Thick, Pen::Empty)),
        '\u{2503}'
    );
    assert_eq!(
        Grid::render_field_drawing(drawing(Pen::Empty, Pen::Thin, Pen::Thin, Pen::Empty)),
        '\u{250c}'
    );
    assert_eq!(
        Grid::render_field_drawing(drawing(Pen::Thick, Pen::Thin, Pen::Thin, Pen::Thin)),
        '\u{2540}'
    );
}

#[test]
fn paint_merges_into_cells() {
    let mut g = Grid::new(4, 4);
    assert_eq!(g.field(2, 2), Field::Empty);
    g.paint(2, 2, Direction::Up, Pen::Thin);
    assert_eq!(
        g.field(2, 2),
        Field::Drawing(drawing(Pen::Thin, Pen::Empty, Pen::Empty, Pen::Empty))
    );
    // Painting a second direction merges.
    g.paint(2, 2, Direction::Down, Pen::Thick);
    assert_eq!(
        g.field(2, 2),
        Field::Drawing(drawing(Pen::Thin, Pen::Empty, Pen::Thick, Pen::Empty))
    );
    // Painting over a decoration replaces it.
    g.paint_decoration(1, 1, "x");
    assert_eq!(g.field(1, 1), Field::Decoration('x'));
    g.paint(1, 1, Direction::Left, Pen::Thin);
    assert_eq!(
        g.field(1, 1),
        Field::Drawing(drawing(Pen::Empty, Pen::Empty, Pen::Empty, Pen::Thin))
    );
    // Other cells are untouched.
    assert_eq!(g.field(0, 0), Field::Empty);
    assert_eq!(g.field(3, 2), Field::Empty);
}

#[test]
fn paint_decoration_skips_null_characters() {
    let mut g = Grid::new(6, 2);
    g.paint(3, 1, Direction::Up, Pen::Thin);
    g.paint_decoration(2, 1, "a\u{0}b");
    assert_eq!(g.field(2, 1), Field::Decoration('a'));
    // The null character leaves the drawing beneath visible.
    assert_eq!(
        g.field(3, 1),
        Field::Drawing(drawing(Pen::Thin, Pen::Empty, Pen::Empty, Pen::Empty))
    );
    assert_eq!(g.field(4, 1), Field::Decoration('b'));
}

#[test]
fn paint_wall_connects_interior_cells() {
    let mut g = Grid::new(6, 6);
    g.paint_wall(1, 2, 3, Direction::Right, true, Pen::Thin);
    // Left endpoint: only the forward arm.
    assert_eq!(
        g.field(1, 2),
        Field::Drawing(drawing(Pen::Empty, Pen::Thin, Pen::Empty, Pen::Empty))
    );
    // Interior cells: both arms.
    for x in 2..=3 {
        assert_eq!(
            g.field(x, 2),
            Field::Drawing(drawing(Pen::Empty, Pen::Thin, Pen::Empty, Pen::Thin))
        );
    }
    // Right endpoint: only the backward arm.
    assert_eq!(
        g.field(4, 2),
        Field::Drawing(drawing(Pen::Empty, Pen::Empty, Pen::Empty, Pen::Thin))
    );
    // Off the wall nothing changed.
    assert_eq!(g.field(5, 2), Field::Empty);
    assert_eq!(g.field(1, 3), Field::Empty);
}

#[test]
fn paint_wall_exclusive_skips_endpoints() {
    let mut g = Grid::new(6, 6);
    g.paint_wall(2, 1, 3, Direction::Down, false, Pen::Thick);
    assert_eq!(g.field(2, 1), Field::Empty);
    assert_eq!(g.field(2, 4), Field::Empty);
    for y in 2..=3 {
        assert_eq!(
            g.field(2, y),
            Field::Drawing(drawing(Pen::Thick, Pen::Empty, Pen::Thick, Pen::Empty))
        );
    }
}

#[test]
fn clear_wipes_interior_and_trims_edges() {
    let mut g = Grid::new(8, 8);
    // A full cross in every cell of a 4x4 region.
    for x in 2..6 {
        for y in 2..6 {
            g.paint(x, y, Direction::Up, Pen::Thin);
            g.paint(x, y, Direction::Down, Pen::Thin);
            g.paint(x, y, Direction::Left, Pen::Thin);
            g.paint(x, y, Direction::Right, Pen::Thin);
        }
    }
    g.clear(2, 2, 4, 4);
    // Fully interior cells are wiped.
    for x in 3..5 {
        for y in 3..5 {
            assert_eq!(g.field(x, y), Field::Empty);
        }
    }
    // A left-edge cell keeps only its outward (left) arm.
    assert_eq!(
        g.field(2, 3),
        Field::Drawing(drawing(Pen::Empty, Pen::Empty, Pen::Empty, Pen::Thin))
    );
    // A top-edge cell keeps only its outward (up) arm.
    assert_eq!(
        g.field(3, 2),
        Field::Drawing(drawing(Pen::Thin, Pen::Empty, Pen::Empty, Pen::Empty))
    );
    // A corner keeps both outward arms.
    assert_eq!(
        g.field(2, 2),
        Field::Drawing(drawing(Pen::Thin, Pen::Empty, Pen::Empty, Pen::Thin))
    );
    // Cells outside the rectangle are untouched.
    assert_eq!(
        g.field(6, 3),
        Field::Empty
    );
}

#[test]
fn clear_turns_decorations_into_empty() {
    let mut g = Grid::new(5, 5);
    g.paint_decoration(1, 1, "abc");
    g.clear(0, 0, 5, 5);
    assert_eq!(g.field(1, 1), Field::Empty);
    assert_eq!(g.field(2, 1), Field::Empty);
}

#[test]
fn grid_dimensions() {
    let g = Grid::new(10, 7);
    assert_eq!(g.w, 10);
    assert_eq!(g.h, 7);
    assert_eq!(g.grid.len(), 11 * 8);
    assert_eq!(g.field_idx(0, 0), 0);
    assert_eq!(g.field_idx(10, 0), 10);
    assert_eq!(g.field_idx(0, 1), 11);
    assert_eq!(g.field_idx(10, 7), 11 * 8 - 1);
}

#[test]
fn field_mut_writes_through() {
    let mut g = Grid::new(3, 3);
    *g.field_mut(1, 2) = Field::Decoration('z');
    assert_eq!(g.field(1, 2), Field::Decoration('z'));
    assert_eq!(g.field(2, 1), Field::Empty);
}
