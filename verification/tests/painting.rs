use grido::Block;
use grido::Field;
use grido::FieldDrawing;
use grido::Grid;
use grido::LiquidType;
use grido::Pen;
use grido::TileType;

fn drawing(up: Pen, right: Pen, down: Pen, left: Pen) -> FieldDrawing {
    FieldDrawing { up, right, down, left }
}

#[test]
fn lone_solid_tile_draws_thick_box_and_face() {
    let mut grid = Grid::new(12, 6);
    let blk = Block { x: 1, y: 1, tiles: vec![(0, 0, TileType::Plain(1))] };
    blk.paint(&mut grid);
    // With no solid neighbors every wall is thick and inclusive; the
    // top-left corner carries the right and down arms.
    assert_eq!(
        grid.field(4, 2),
        Field::Drawing(drawing(Pen::Empty, Pen::Thick, Pen::Thick, Pen::Empty))
    );
    assert_eq!(
        Grid::render_field_drawing(drawing(Pen::Empty, Pen::Thick, Pen::Thick, Pen::Empty)),
        '\u{250f}'
    );
    // The other three corners.
    assert_eq!(
        grid.field(8, 2),
        Field::Drawing(drawing(Pen::Empty, Pen::Empty, Pen::Thick, Pen::Thick))
    );
    assert_eq!(
        grid.field(4, 4),
        Field::Drawing(drawing(Pen::Thick, Pen::Thick, Pen::Empty, Pen::Empty))
    );
    assert_eq!(
        grid.field(8, 4),
        Field::Drawing(drawing(Pen::Thick, Pen::Empty, Pen::Empty, Pen::Thick))
    );
    // The face of Plain(1) sits in the middle row.
    assert_eq!(grid.field(5, 3), Field::Decoration(' '));
    assert_eq!(grid.field(6, 3), Field::Decoration('\u{2022}'));
    assert_eq!(grid.field(7, 3), Field::Decoration(' '));
    // Cells outside the tile's screen rectangle are untouched.
    assert_eq!(grid.field(9, 3), Field::Empty);
    assert_eq!(grid.field(3, 2), Field::Empty);
}

#[test]
fn spillage_draws_sparse_pattern_without_walls() {
    let mut grid = Grid::new(12, 6);
    let blk = Block { x: 1, y: 1, tiles: vec![(0, 0, TileType::Spillage(LiquidType::Acid))] };
    blk.paint(&mut grid);
    // Sparse rows: " x x " / "x x x" / " x x ".
    assert_eq!(grid.field(4, 2), Field::Decoration(' '));
    assert_eq!(grid.field(5, 2), Field::Decoration('\u{25b4}'));
    assert_eq!(grid.field(4, 3), Field::Decoration('\u{25b4}'));
    assert_eq!(grid.field(6, 3), Field::Decoration('\u{25b4}'));
    assert_eq!(grid.field(8, 3), Field::Decoration('\u{25b4}'));
    assert_eq!(grid.field(5, 4), Field::Decoration('\u{25b4}'));
    assert_eq!(grid.field(6, 4), Field::Decoration(' '));
}

#[test]
fn paint_tile_respects_neighbor_flags() {
    let mut grid = Grid::new(12, 6);
    // A tile with a solid neighbor above: the top wall is thin and
    // exclusive, so the top-left corner carries only the left wall's arm.
    Block::paint_tile(4, 2, 4, 2, &mut grid, true, false, false, false, Pen::Thin, Pen::Thick);
    assert_eq!(
        grid.field(4, 2),
        Field::Drawing(drawing(Pen::Empty, Pen::Empty, Pen::Thick, Pen::Empty))
    );
    // An interior cell of the top wall carries the thin pen both ways.
    assert_eq!(
        grid.field(5, 2),
        Field::Drawing(drawing(Pen::Empty, Pen::Thin, Pen::Empty, Pen::Thin))
    );
}

#[test]
fn paint1_clears_prior_content_under_walls() {
    let mut grid = Grid::new(12, 6);
    // A full thin cross on a top-wall interior cell of the coming tile.
    grid.paint(5, 2, grido::Direction::Up, Pen::Thin);
    grid.paint(5, 2, grido::Direction::Down, Pen::Thin);
    grid.paint(5, 2, grido::Direction::Left, Pen::Thin);
    grid.paint(5, 2, grido::Direction::Right, Pen::Thin);
    // And a decoration where the face will land.
    grid.paint_decoration(6, 3, "Z");
    let blk = Block { x: 1, y: 1, tiles: vec![(0, 0, TileType::Plain(0))] };
    blk.paint(&mut grid);
    // The clearing step keeps only the outward (up) arm; the thick top wall
    // then adds its two horizontal arms.
    assert_eq!(
        grid.field(5, 2),
        Field::Drawing(drawing(Pen::Thin, Pen::Thick, Pen::Empty, Pen::Thick))
    );
    // The face overwrote the decoration.
    assert_eq!(grid.field(6, 3), Field::Decoration(' '));
}

#[test]
fn paint_tile_inclusive_endpoints() {
    let mut grid = Grid::new(12, 6);
    // Free on every side: all walls inclusive, so each corner carries the
    // inward arm of both adjoining walls.
    Block::paint_tile(4, 2, 4, 2, &mut grid, false, false, false, false, Pen::Thin, Pen::Thick);
    assert_eq!(
        grid.field(4, 2),
        Field::Drawing(drawing(Pen::Empty, Pen::Thick, Pen::Thick, Pen::Empty))
    );
    assert_eq!(
        grid.field(8, 4),
        Field::Drawing(drawing(Pen::Thick, Pen::Empty, Pen::Empty, Pen::Thick))
    );
    // A wall shared with a neighbor is exclusive: its endpoints carry only
    // the other wall's arm.
    let mut grid2 = Grid::new(12, 6);
    Block::paint_tile(4, 2, 4, 2, &mut grid2, true, false, false, false, Pen::Thin, Pen::Thick);
    assert_eq!(
        grid2.field(4, 2),
        Field::Drawing(drawing(Pen::Empty, Pen::Empty, Pen::Thick, Pen::Empty))
    );
    assert_eq!(
        grid2.field(8, 2),
        Field::Drawing(drawing(Pen::Empty, Pen::Empty, Pen::Thick, Pen::Empty))
    );
}
