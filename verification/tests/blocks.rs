use grido::Block;
use grido::LiquidType;
use grido::TileType;
use grido::block::block_collides;
use grido::block::try_move;

fn block_at(x: i16, y: i16, tiles: Vec<(i16, i16, TileType)>) -> Block {
    Block { x, y, tiles }
}

#[test]
fn at_finds_tiles_by_absolute_position() {
    let b = block_at(2, 3, vec![(0, 0, TileType::Plain(0)), (1, -1, TileType::Picker)]);
    assert_eq!(b.at(2, 3), Some(TileType::Plain(0)));
    assert_eq!(b.at(3, 2), Some(TileType::Picker));
    assert_eq!(b.at(0, 0), None);
    assert_eq!(b.at(3, 3), None);
}

#[test]
fn moved_shifts_anchor_only() {
    let b = block_at(2, 3, vec![(1, 1, TileType::Plain(0))]);
    let m = b.moved(-1, 4);
    assert_eq!(m.x, 1);
    assert_eq!(m.y, 7);
    assert_eq!(m.tiles, b.tiles);
    assert_eq!(m.at(2, 8), Some(TileType::Plain(0)));
}

#[test]
fn moved_to_lands_anchor() {
    let b = block_at(2, 3, vec![(1, 1, TileType::Plain(0))]);
    let m = b.moved_to(10, 20);
    assert_eq!(m.x, 10);
    assert_eq!(m.y, 20);
    assert_eq!(m.tiles, b.tiles);
}

#[test]
fn turned_rotates_offsets() {
    let b = block_at(0, 0, vec![(1, 0, TileType::Plain(0)), (0, -1, TileType::Picker)]);
    let t = b.turned();
    assert_eq!(t.tiles, vec![(0, -1, TileType::Plain(0)), (-1, 0, TileType::Picker)]);
}

#[test]
fn turned_four_times_is_identity() {
    let b = block_at(
        3,
        4,
        vec![
            (0, 0, TileType::Plain(0)),
            (1, 0, TileType::Picker),
            (0, -1, TileType::Killer(2)),
            (-2, 3, TileType::Whopper(1)),
        ],
    );
    let t = b.turned().turned().turned().turned();
    assert_eq!(t.x, b.x);
    assert_eq!(t.y, b.y);
    assert_eq!(t.tiles, b.tiles);
}

#[test]
fn intersects_is_symmetric() {
    let a = block_at(0, 0, vec![(0, 0, TileType::Plain(0)), (1, 0, TileType::Plain(0))]);
    let b = block_at(1, 0, vec![(0, 0, TileType::Permanent)]);
    let c = block_at(5, 5, vec![(0, 0, TileType::Permanent)]);
    assert!(a.intersects(&b));
    assert!(b.intersects(&a));
    assert!(!a.intersects(&c));
    assert!(!c.intersects(&a));
}

#[test]
fn collides_with_tracks_overlap() {
    let a = block_at(0, 0, vec![(0, 0, TileType::Killer(1))]);
    let b = block_at(0, 0, vec![(0, 0, TileType::Plain(0))]);
    let c = block_at(2, 2, vec![(0, 0, TileType::Plain(0))]);
    assert!(a.collides_with(&b));
    assert!(!a.collides_with(&c));
}

#[test]
fn block_collide_replaces_both_sides() {
    // A falling Killer(2) over a stationary Plain(0): the killer keeps one
    // charge, the plain tile is destroyed.
    let falling = block_at(4, 4, vec![(0, 0, TileType::Killer(2))]);
    let field = block_at(0, 0, vec![(4, 4, TileType::Plain(0)), (4, 5, TileType::Plain(0))]);
    let (nf, npg) = Block::collide(falling, &field);
    assert_eq!(nf.tiles, vec![(0, 0, TileType::Killer(1))]);
    assert_eq!(npg.tiles, vec![(4, 5, TileType::Plain(0))]);

    // On the eventual ground drop the surviving killer becomes plain.
    let mut pg = npg;
    let border = Block::new_border(0, 0);
    assert!(nf.drop(&mut pg, &border));
    assert_eq!(pg.at(4, 4), Some(TileType::Plain(0)));
    assert_eq!(pg.at(4, 5), Some(TileType::Plain(0)));
}

#[test]
fn block_collide_into_glue_leaves_residue() {
    let falling = block_at(1, 1, vec![(0, 0, TileType::Killer(3))]);
    let field = block_at(0, 0, vec![(1, 1, TileType::Spillage(LiquidType::Glue))]);
    let (nf, npg) = Block::collide(falling, &field);
    // The killer is consumed by the glue; its drop residue lands on the
    // field.
    assert!(nf.tiles.is_empty());
    assert_eq!(npg.tiles, vec![(1, 1, TileType::Plain(0))]);
}

#[test]
fn drop_refuses_overlap() {
    let falling = block_at(0, 0, vec![(0, 0, TileType::Plain(0))]);
    let mut pg = block_at(0, 0, vec![(0, 0, TileType::Plain(1))]);
    let before = pg.tiles.clone();
    let border = Block::new_border(0, 0);
    assert!(!falling.drop(&mut pg, &border));
    assert_eq!(pg.tiles, before);
}

#[test]
fn drop_applies_transformation_and_offsets() {
    let falling = block_at(3, 3, vec![(0, 0, TileType::Killer(1)), (0, -1, TileType::Plain(2))]);
    let mut pg = block_at(1, 1, vec![(0, 0, TileType::Permanent)]);
    let border = Block::new_border(0, 0);
    assert!(falling.drop(&mut pg, &border));
    assert_eq!(pg.at(3, 3), Some(TileType::Plain(0)));
    assert_eq!(pg.at(3, 2), Some(TileType::Plain(2)));
    assert_eq!(pg.tiles.len(), 3);
}

#[test]
fn border_ring_occupancy() {
    let bd = Block::new_border(5, 4);
    // Top row: columns 0..=3 at row 0.
    for x in 0..=3 {
        assert_eq!(bd.at(x, 0), Some(TileType::Permanent));
    }
    // Bottom row: columns 1..=4 at row 3.
    for x in 1..=4 {
        assert_eq!(bd.at(x, 3), Some(TileType::Permanent));
    }
    // Left column: rows 1..=3 at column 0.
    for y in 1..=3 {
        assert_eq!(bd.at(0, y), Some(TileType::Permanent));
    }
    // Right column: rows 0..=2 at column 4.
    for y in 0..=2 {
        assert_eq!(bd.at(4, y), Some(TileType::Permanent));
    }
    // Exactly the perimeter count, 2 * (w + h) - 4, each position once.
    assert_eq!(bd.tiles.len(), 2 * 4 + 2 * 3);
    assert_eq!(bd.tiles.len(), 2 * (5 + 4) - 4);
    for i in 0..bd.tiles.len() {
        for j in i + 1..bd.tiles.len() {
            assert_ne!(
                (bd.tiles[i].0, bd.tiles[i].1),
                (bd.tiles[j].0, bd.tiles[j].1)
            );
        }
    }
    for x in 1..=3 {
        for y in 1..=2 {
            assert_eq!(bd.at(x, y), None);
        }
    }
    assert_eq!(bd.at(4, 3), Some(TileType::Permanent));
}

#[test]
fn new_from_shape_keeps_offsets() {
    let shape = [(0i16, -1i16), (0i16, 0i16), (1i16, 0i16)];
    let b = Block::new_from_shape(&shape, 0);
    assert_eq!(b.x, 0);
    assert_eq!(b.y, 0);
    assert_eq!(b.tiles.len(), 3);
    for (i, &(dx, dy)) in shape.iter().enumerate() {
        assert_eq!((b.tiles[i].0, b.tiles[i].1), (dx, dy));
        // At score zero only the base outcomes exist.
        assert!(matches!(b.tiles[i].2, TileType::Plain(0) | TileType::Picker));
    }
}

#[test]
fn new_random_uses_the_seven_shapes() {
    let shapes: [&[(i16, i16)]; 7] = [
        &[(0, 0)],
        &[(0, -1), (0, 0)],
        &[(0, -1), (0, 0), (0, 1)],
        &[(0, -1), (0, 1)],
        &[(-1, -1), (0, 0)],
        &[(-1, 0), (0, 0), (0, -1)],
        &[(0, -1), (-1, 0), (1, 0)],
    ];
    for _ in 0..100 {
        let b = Block::new_random(0);
        let offsets: Vec<(i16, i16)> = b.tiles.iter().map(|&(dx, dy, _)| (dx, dy)).collect();
        assert!(shapes.iter().any(|s| s == &offsets.as_slice()));
    }
}

#[test]
fn spill_queues_center_and_orthogonals() {
    let mut spills: Vec<(i16, i16, LiquidType)> = Vec::new();
    Block::spill(7, 9, &mut spills, LiquidType::Acid);
    assert_eq!(
        spills,
        vec![
            (7, 9, LiquidType::Acid),
            (7, 10, LiquidType::Acid),
            (8, 9, LiquidType::Acid),
            (7, 8, LiquidType::Acid),
            (6, 9, LiquidType::Acid),
        ]
    );
}

#[test]
fn empty_blocks() {
    let b = Block::new();
    assert_eq!((b.x, b.y), (0, 0));
    assert!(b.tiles.is_empty());
    let c = Block::new_at(3, -2);
    assert_eq!((c.x, c.y), (3, -2));
    assert!(c.tiles.is_empty());
}

#[test]
fn try_move_refuses_border_overlap() {
    let bd = Block::new_border(10, 8);
    let mut pg = Block::new();
    let blk = block_at(2, 2, vec![(0, 0, TileType::Plain(0))]);
    // Pushing the block onto the border's left column is refused.
    let moved = blk.moved(-2, 0);
    let kept = try_move(moved, blk, &bd, &mut pg);
    assert_eq!((kept.x, kept.y), (2, 2));
    assert!(pg.tiles.is_empty());
}

#[test]
fn try_move_accepts_free_cells() {
    let bd = Block::new_border(10, 8);
    let mut pg = Block::new();
    let blk = block_at(2, 2, vec![(0, 0, TileType::Plain(0))]);
    let stepped = try_move(blk.moved(1, 0), blk, &bd, &mut pg);
    assert_eq!((stepped.x, stepped.y), (3, 2));
}

#[test]
fn try_move_resolves_collisions() {
    let bd = Block::new_border(10, 8);
    // A lone plain tile sits at (3, 2).
    let mut pg = block_at(0, 0, vec![(3, 2, TileType::Plain(0))]);
    let blk = block_at(2, 2, vec![(0, 0, TileType::Killer(2))]);
    // Moving the killer onto it destroys the tile and spends a charge.
    let moved = try_move(blk.moved(1, 0), blk, &bd, &mut pg);
    assert_eq!((moved.x, moved.y), (3, 2));
    assert_eq!(moved.tiles, vec![(0, 0, TileType::Killer(1))]);
    assert!(pg.tiles.is_empty());
}

#[test]
fn try_move_keeps_block_when_collision_unresolved() {
    let bd = Block::new_border(10, 8);
    // Two plain tiles coexist after a collision, so the move is refused.
    let mut pg = block_at(0, 0, vec![(3, 2, TileType::Plain(0))]);
    let before = pg.tiles.clone();
    let blk = block_at(2, 2, vec![(0, 0, TileType::Plain(1))]);
    let kept = try_move(blk.moved(1, 0), blk, &bd, &mut pg);
    assert_eq!((kept.x, kept.y), (2, 2));
    assert_eq!(pg.tiles, before);
}

#[test]
fn block_collides_checks_border_and_field() {
    let bd = Block::new_border(10, 8);
    let pg = block_at(0, 0, vec![(3, 2, TileType::Plain(0))]);
    let on_border = block_at(0, 1, vec![(0, 0, TileType::Plain(0))]);
    let on_field = block_at(3, 2, vec![(0, 0, TileType::Plain(0))]);
    let free = block_at(5, 5, vec![(0, 0, TileType::Plain(0))]);
    assert!(block_collides(&on_border, &bd, &pg));
    assert!(block_collides(&on_field, &bd, &pg));
    assert!(!block_collides(&free, &bd, &pg));
}
