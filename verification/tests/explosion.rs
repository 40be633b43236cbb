use grido::Block;
use grido::LiquidType;
use grido::TileType;

fn field_with(tiles: Vec<(i16, i16, TileType)>) -> Block {
    Block { x: 0, y: 0, tiles }
}

fn square_of_plain(cx: i16, cy: i16) -> Vec<(i16, i16, TileType)> {
    let mut v = Vec::new();
    for dy in -1..=1 {
        for dx in -1..=1 {
            v.push((cx + dx, cy + dy, TileType::Plain(0)));
        }
    }
    v
}

#[test]
fn nine_plain_tiles_explode_completely() {
    // A solid 3x3 block of nine Plain(0) tiles centered at (5, 5).
    let mut pg = field_with(square_of_plain(5, 5));
    let (exploded, hits, dmult) = pg.explode();
    assert_eq!(exploded.len(), 9);
    assert_eq!(hits, 9);
    assert_eq!(dmult, 0);
    for dy in -1..=1 {
        for dx in -1..=1 {
            assert_eq!(pg.at(5 + dx, 5 + dy), None);
        }
    }
    assert!(pg.tiles.is_empty());
}

#[test]
fn incomplete_neighborhood_never_detonates() {
    // Eight tiles around an empty center: nothing may detonate.
    let mut tiles = square_of_plain(5, 5);
    tiles.retain(|&(x, y, _)| !(x == 5 && y == 5));
    let mut pg = field_with(tiles.clone());
    let (exploded, hits, dmult) = pg.explode();
    assert_eq!(exploded.len(), 0);
    assert_eq!(hits, 0);
    assert_eq!(dmult, 0);
    assert_eq!(pg.tiles, tiles);
    // Running the cycle again is idempotent: still nothing happens.
    let (exploded2, hits2, dmult2) = pg.explode();
    assert_eq!(exploded2.len(), 0);
    assert_eq!(hits2, 0);
    assert_eq!(dmult2, 0);
    assert_eq!(pg.tiles, tiles);
}

#[test]
fn incompatible_neighbor_blocks_detonation() {
    // A permanent tile inside the 3x3 stops every detonation.
    let mut tiles = square_of_plain(5, 5);
    tiles.retain(|&(x, y, _)| !(x == 4 && y == 4));
    tiles.push((4, 4, TileType::Permanent));
    let mut pg = field_with(tiles.clone());
    let (exploded, hits, dmult) = pg.explode();
    assert_eq!(exploded.len(), 0);
    assert_eq!(hits, 0);
    assert_eq!(dmult, 0);
    assert_eq!(pg.tiles.len(), tiles.len());
}

#[test]
fn shield_tiles_convert_down_and_cascade() {
    // A 3x3 of Plain(1): one cycle converts all nine to Plain(0); the next
    // removes them.
    let mut tiles = Vec::new();
    for dy in -1..=1 {
        for dx in -1..=1 {
            tiles.push((5 + dx, 5 + dy, TileType::Plain(1)));
        }
    }
    let mut pg = field_with(tiles);
    let (exploded, hits, dmult) = pg.explode();
    assert_eq!(exploded.len(), 9);
    assert_eq!(hits, 18);
    assert_eq!(dmult, 0);
    for dy in -1..=1 {
        for dx in -1..=1 {
            assert_eq!(pg.at(5 + dx, 5 + dy), Some(TileType::Plain(0)));
        }
    }
    let (exploded2, hits2, _) = pg.explode();
    assert_eq!(exploded2.len(), 9);
    assert_eq!(hits2, 9);
    assert!(pg.tiles.is_empty());
}

#[test]
fn flask_spills_skip_occupied_positions() {
    // A glue flask west of an acid flask, both consumed by one detonation.
    // The glue spill runs first and occupies (5, 5), so the acid flask must
    // not leave Spillage(Acid) there, but must fill its empty orthogonal
    // neighbors with it.
    let mut tiles = Vec::new();
    for dy in -1..=1 {
        for dx in -1..=1 {
            let pos = (5 + dx, 5 + dy);
            if pos == (4, 5) {
                tiles.push((4, 5, TileType::Flask(LiquidType::Glue)));
            } else if pos == (5, 5) {
                tiles.push((5, 5, TileType::Flask(LiquidType::Acid)));
            } else {
                tiles.push((pos.0, pos.1, TileType::Plain(0)));
            }
        }
    }
    let mut pg = field_with(tiles);
    let (exploded, hits, dmult) = pg.explode();
    assert_eq!(exploded.len(), 9);
    assert_eq!(hits, 9);
    assert_eq!(dmult, 0);
    // The glue spill claimed (5, 5) first.
    assert_eq!(pg.at(5, 5), Some(TileType::Spillage(LiquidType::Glue)));
    // The acid flask's empty orthogonal neighbors got acid.
    assert_eq!(pg.at(5, 4), Some(TileType::Spillage(LiquidType::Acid)));
    assert_eq!(pg.at(5, 6), Some(TileType::Spillage(LiquidType::Acid)));
    assert_eq!(pg.at(6, 5), Some(TileType::Spillage(LiquidType::Acid)));
    // The glue flask's own center was claimed by glue.
    assert_eq!(pg.at(4, 5), Some(TileType::Spillage(LiquidType::Glue)));
}

#[test]
fn flask_spill_fills_empty_neighborhood() {
    // A lone acid flask in the middle of a 3x3 of plain tiles: after the
    // cycle the flask's position and its four orthogonal neighbors hold
    // acid.
    let mut tiles = Vec::new();
    for dy in -1..=1 {
        for dx in -1..=1 {
            if (dx, dy) == (0, 0) {
                tiles.push((5, 5, TileType::Flask(LiquidType::Acid)));
            } else {
                tiles.push((5 + dx, 5 + dy, TileType::Plain(0)));
            }
        }
    }
    let mut pg = field_with(tiles);
    let (exploded, _, _) = pg.explode();
    assert_eq!(exploded.len(), 9);
    assert_eq!(pg.at(5, 5), Some(TileType::Spillage(LiquidType::Acid)));
    assert_eq!(pg.at(5, 4), Some(TileType::Spillage(LiquidType::Acid)));
    assert_eq!(pg.at(5, 6), Some(TileType::Spillage(LiquidType::Acid)));
    assert_eq!(pg.at(4, 5), Some(TileType::Spillage(LiquidType::Acid)));
    assert_eq!(pg.at(6, 5), Some(TileType::Spillage(LiquidType::Acid)));
    assert_eq!(pg.tiles.len(), 5);
}

#[test]
fn bulk_bonus_for_twenty_one_tiles() {
    // A 3x7 slab of Plain(0): the five interior tiles detonate and their
    // shapes cover all 21 tiles, so the bulk bonus (21 - 9) / 9 == 1 joins
    // the multiplier delta.
    let mut tiles = Vec::new();
    for y in 0..3 {
        for x in 0..7 {
            tiles.push((x, y, TileType::Plain(0)));
        }
    }
    let mut pg = field_with(tiles);
    let (exploded, hits, dmult) = pg.explode();
    assert_eq!(exploded.len(), 21);
    assert_eq!(hits, 21);
    assert_eq!(dmult, 1);
    assert!(pg.tiles.is_empty());
}

#[test]
fn plus_and_minus_move_the_multiplier() {
    // A 3x3 with a Plus in one corner and a Minus in another: both count a
    // hit and their effects cancel.
    let mut tiles = square_of_plain(5, 5);
    tiles.retain(|&(x, y, _)| !(x == 4 && y == 4) && !(x == 6 && y == 6));
    tiles.push((4, 4, TileType::Plus));
    tiles.push((6, 6, TileType::Minus));
    let mut pg = field_with(tiles);
    let (exploded, hits, dmult) = pg.explode();
    assert_eq!(exploded.len(), 9);
    assert_eq!(hits, 9);
    assert_eq!(dmult, 0);

    // Only a Plus: the delta is positive.
    let mut tiles2 = square_of_plain(5, 5);
    tiles2.retain(|&(x, y, _)| !(x == 4 && y == 4));
    tiles2.push((4, 4, TileType::Plus));
    let mut pg2 = field_with(tiles2);
    let (_, hits2, dmult2) = pg2.explode();
    assert_eq!(hits2, 9);
    assert_eq!(dmult2, 1);
}

#[test]
fn whopper_needs_five_by_five() {
    // A whopper inside a full 5x5 of plain tiles detonates the whole square.
    let mut tiles = Vec::new();
    for dy in -2i16..=2 {
        for dx in -2i16..=2 {
            if (dx, dy) == (0, 0) {
                tiles.push((5, 5, TileType::Whopper(2)));
            } else {
                tiles.push((5 + dx, 5 + dy, TileType::Plain(0)));
            }
        }
    }
    let mut pg = field_with(tiles);
    let (exploded, hits, dmult) = pg.explode();
    assert_eq!(exploded.len(), 25);
    assert_eq!(hits, 24 + 30);
    // 25 tiles exploded: the bulk bonus is (25 - 9) / 9 == 1.
    assert_eq!(dmult, 1);
    // The whopper converts into a centerpiece with the same charge.
    assert_eq!(pg.at(5, 5), Some(TileType::Centerpiece(2)));
    assert_eq!(pg.tiles.len(), 1);

    // A whopper with only a 3x3 filled does not detonate.
    let mut tiles2 = Vec::new();
    for dy in -1i16..=1 {
        for dx in -1i16..=1 {
            if (dx, dy) == (0, 0) {
                tiles2.push((5, 5, TileType::Whopper(2)));
            } else {
                tiles2.push((5 + dx, 5 + dy, TileType::Plain(0)));
            }
        }
    }
    let mut pg2 = field_with(tiles2);
    let (exploded2, _, _) = pg2.explode();
    assert_eq!(exploded2.len(), 0);
}

#[test]
fn centerpiece_explodes_only_centered() {
    // A centerpiece surrounded by plain tiles detonates and counts 10n.
    let mut tiles = Vec::new();
    for dy in -1i16..=1 {
        for dx in -1i16..=1 {
            if (dx, dy) == (0, 0) {
                tiles.push((5, 5, TileType::Centerpiece(1)));
            } else {
                tiles.push((5 + dx, 5 + dy, TileType::Plain(0)));
            }
        }
    }
    let mut pg = field_with(tiles);
    let (exploded, hits, _) = pg.explode();
    assert_eq!(exploded.len(), 9);
    assert_eq!(hits, 8 + 10);
    assert!(pg.tiles.is_empty());
}
