use grido::LiquidType;
use grido::TileType;
use grido::tile::ExplodeAction;
use grido::tile::apply_multiplier_delta;
use grido::tile::level;

#[test]
fn level_thresholds() {
    assert_eq!(level(0), 0);
    assert_eq!(level(1), 1);
    assert_eq!(level(100), 1);
    assert_eq!(level(101), 2);
    assert_eq!(level(300), 2);
    assert_eq!(level(301), 3);
    assert_eq!(level(600), 3);
    assert_eq!(level(601), 4);
    assert_eq!(level(1000), 4);
    assert_eq!(level(1001), 5);
}

#[test]
fn is_plain_classes() {
    assert!(TileType::Plain(0).is_plain());
    assert!(TileType::Plain(7).is_plain());
    assert!(TileType::Flask(LiquidType::Acid).is_plain());
    assert!(TileType::Plus.is_plain());
    assert!(TileType::Minus.is_plain());
    assert!(!TileType::Picker.is_plain());
    assert!(!TileType::Centerpiece(1).is_plain());
    assert!(!TileType::Whopper(1).is_plain());
    assert!(!TileType::Permanent.is_plain());
    assert!(!TileType::Spillage(LiquidType::Glue).is_plain());
}

#[test]
fn is_solid_only_spillage_is_not() {
    assert!(!TileType::Spillage(LiquidType::Acid).is_solid());
    assert!(!TileType::Spillage(LiquidType::Glue).is_solid());
    assert!(TileType::Plain(0).is_solid());
    assert!(TileType::Permanent.is_solid());
    assert!(TileType::Flask(LiquidType::Glue).is_solid());
}

#[test]
fn drop_degrades_killer_only() {
    assert_eq!(TileType::Killer(5).drop(), Some(TileType::Plain(0)));
    assert_eq!(TileType::Killer(1).drop(), Some(TileType::Plain(0)));
    assert_eq!(TileType::Plain(3).drop(), Some(TileType::Plain(3)));
    assert_eq!(TileType::Picker.drop(), Some(TileType::Picker));
    assert_eq!(
        TileType::Flask(LiquidType::Acid).drop(),
        Some(TileType::Flask(LiquidType::Acid))
    );
}

#[test]
fn explode_actions() {
    assert_eq!(TileType::Plain(0).explode(), ExplodeAction::Remove);
    assert_eq!(
        TileType::Plain(4).explode(),
        ExplodeAction::Convert(TileType::Plain(3))
    );
    assert_eq!(TileType::Centerpiece(1).explode(), ExplodeAction::Remove);
    assert_eq!(
        TileType::Centerpiece(3).explode(),
        ExplodeAction::Convert(TileType::Centerpiece(2))
    );
    assert_eq!(
        TileType::Whopper(2).explode(),
        ExplodeAction::Convert(TileType::Centerpiece(2))
    );
    assert_eq!(
        TileType::Flask(LiquidType::Glue).explode(),
        ExplodeAction::Spill(LiquidType::Glue)
    );
    assert_eq!(
        TileType::Plus.explode(),
        ExplodeAction::Complex(
            Box::new(ExplodeAction::Remove),
            Box::new(ExplodeAction::Plus)
        )
    );
    assert_eq!(
        TileType::Minus.explode(),
        ExplodeAction::Complex(
            Box::new(ExplodeAction::Remove),
            Box::new(ExplodeAction::Minus)
        )
    );
    assert_eq!(TileType::Permanent.explode(), ExplodeAction::Remove);
    assert_eq!(TileType::Picker.explode(), ExplodeAction::Remove);
}

#[test]
fn explodes_compatibility() {
    // Plain-class initiators consume only plain-class neighbors.
    assert!(TileType::Plain(0).explodes(TileType::Plain(2)));
    assert!(TileType::Plain(0).explodes(TileType::Flask(LiquidType::Acid)));
    assert!(TileType::Plain(0).explodes(TileType::Plus));
    assert!(!TileType::Plain(0).explodes(TileType::Centerpiece(1)));
    assert!(!TileType::Plain(0).explodes(TileType::Permanent));
    // A centerpiece also accepts centerpieces.
    assert!(TileType::Centerpiece(2).explodes(TileType::Centerpiece(1)));
    assert!(TileType::Centerpiece(2).explodes(TileType::Plain(0)));
    assert!(!TileType::Centerpiece(2).explodes(TileType::Whopper(1)));
    // A whopper additionally accepts whoppers.
    assert!(TileType::Whopper(1).explodes(TileType::Whopper(2)));
    assert!(TileType::Whopper(1).explodes(TileType::Centerpiece(1)));
    assert!(TileType::Whopper(1).explodes(TileType::Minus));
    assert!(!TileType::Whopper(1).explodes(TileType::Permanent));
    // The rest never initiates.
    assert!(!TileType::Permanent.explodes(TileType::Plain(0)));
    assert!(!TileType::Picker.explodes(TileType::Plain(0)));
    assert!(!TileType::Spillage(LiquidType::Acid).explodes(TileType::Plain(0)));
}

#[test]
fn collide_liquids_consume() {
    assert_eq!(
        TileType::collide(TileType::Plain(2), TileType::Spillage(LiquidType::Acid)),
        (None, None)
    );
    assert_eq!(
        TileType::collide(TileType::Killer(2), TileType::Spillage(LiquidType::Glue)),
        (None, Some(TileType::Plain(0)))
    );
    assert_eq!(
        TileType::collide(TileType::Plain(3), TileType::Spillage(LiquidType::Glue)),
        (None, Some(TileType::Plain(3)))
    );
}

#[test]
fn collide_picker_absorbs() {
    assert_eq!(
        TileType::collide(TileType::Picker, TileType::Killer(4)),
        (Some(TileType::Plain(0)), None)
    );
    assert_eq!(
        TileType::collide(TileType::Plain(1), TileType::Picker),
        (None, Some(TileType::Plain(1)))
    );
}

#[test]
fn collide_killer_charges() {
    assert_eq!(
        TileType::collide(TileType::Killer(1), TileType::Plain(0)),
        (None, None)
    );
    assert_eq!(
        TileType::collide(TileType::Killer(2), TileType::Plain(0)),
        (Some(TileType::Killer(1)), None)
    );
    assert_eq!(
        TileType::collide(TileType::Plain(0), TileType::Killer(1)),
        (None, None)
    );
    assert_eq!(
        TileType::collide(TileType::Plain(0), TileType::Killer(3)),
        (None, Some(TileType::Killer(2)))
    );
}

#[test]
fn collide_default_coexist() {
    assert_eq!(
        TileType::collide(TileType::Plain(1), TileType::Plain(2)),
        (Some(TileType::Plain(1)), Some(TileType::Plain(2)))
    );
    assert!(TileType::collides(TileType::Plain(0), TileType::Permanent));
    assert!(TileType::collides(
        TileType::Spillage(LiquidType::Acid),
        TileType::Picker
    ));
}

#[test]
fn explode_shape_sizes() {
    let ordinary = TileType::Plain(0).explode_shape();
    assert_eq!(ordinary.len(), 9);
    assert!(ordinary.contains(&(0, 0)));
    assert!(ordinary.contains(&(-1, -1)));
    assert!(ordinary.contains(&(1, 1)));
    assert!(!ordinary.contains(&(2, 0)));
    let big = TileType::Whopper(1).explode_shape();
    assert_eq!(big.len(), 25);
    assert!(big.contains(&(-2, -2)));
    assert!(big.contains(&(2, 2)));
    assert!(big.contains(&(0, 0)));
}

#[test]
fn bonus_values() {
    assert_eq!(TileType::Plain(0).bonus(), 1);
    assert_eq!(TileType::Plain(2).bonus(), 3);
    assert_eq!(TileType::Centerpiece(3).bonus(), 30);
    assert_eq!(TileType::Whopper(9).bonus(), 30);
    assert_eq!(TileType::Picker.bonus(), 1);
    assert_eq!(TileType::Permanent.bonus(), 1);
    assert_eq!(TileType::Flask(LiquidType::Glue).bonus(), 1);
}

#[test]
fn render_faces() {
    assert_eq!(TileType::Plain(0).render(), "   ");
    assert_eq!(TileType::Plain(1).render(), " \u{2022} ");
    assert_eq!(TileType::Plain(3).render(), " \u{2022}\u{00b3}");
    assert_eq!(TileType::Killer(1).render(), " \u{21af} ");
    assert_eq!(TileType::Killer(9).render(), " \u{21af}\u{2079}");
    assert_eq!(TileType::Killer(11).render(), " \u{21af}\u{207f}");
    assert_eq!(TileType::Centerpiece(2).render(), " \u{25c9}\u{00b2}");
    assert_eq!(TileType::Whopper(1).render(), " \u{2731} ");
    assert_eq!(TileType::Permanent.render(), " \u{2716} ");
    assert_eq!(TileType::Picker.render(), "[ ]");
    assert_eq!(TileType::Plus.render(), " + ");
    assert_eq!(TileType::Minus.render(), " - ");
    assert_eq!(TileType::Flask(LiquidType::Acid).render(), " \u{25b4} ");
    assert_eq!(TileType::Flask(LiquidType::Glue).render(), " \u{25bf} ");
    assert_eq!(TileType::Spillage(LiquidType::Acid).render(), "\u{25b4}");
    assert_eq!(TileType::Spillage(LiquidType::Glue).render(), "\u{25bf}");
}

#[test]
fn multiplier_clamps_at_zero() {
    // Multiplier at 3 with a delta of -5 clamps to 0, not -2.
    assert_eq!(apply_multiplier_delta(3, -5), 0);
    assert_eq!(apply_multiplier_delta(3, -3), 0);
    assert_eq!(apply_multiplier_delta(3, -2), 1);
    assert_eq!(apply_multiplier_delta(3, 2), 5);
    assert_eq!(apply_multiplier_delta(0, 4), 4);
    assert_eq!(apply_multiplier_delta(7, 0), 7);
}

#[test]
fn random_tiles_respect_level_zero() {
    // At score 0 only the two base outcomes exist.
    let mut seen_plain = false;
    let mut seen_picker = false;
    for _ in 0..300 {
        match TileType::new_random(0) {
            TileType::Plain(0) => seen_plain = true,
            TileType::Picker => seen_picker = true,
            other => panic!("locked tile drawn at level zero: {:?}", other),
        }
    }
    assert!(seen_plain);
    assert!(seen_picker);
}

#[test]
fn random_tiles_respect_level_bounds() {
    // Level 5 unlocks everything up to centerpieces, but nothing beyond.
    let score = 1200; // between the level-4 and level-5 thresholds
    assert_eq!(level(score), 5);
    for _ in 0..300 {
        match TileType::new_random(score) {
            TileType::Plain(n) => assert!(n <= 5),
            TileType::Picker => {}
            TileType::Plus | TileType::Minus => {}
            TileType::Flask(_) => {}
            TileType::Killer(n) => assert!(1 <= n && n <= 1),
            TileType::Centerpiece(n) => assert!(1 <= n && n <= 2),
            other => panic!("locked tile drawn at level five: {:?}", other),
        }
    }
}
