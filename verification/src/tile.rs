//! Tile chemistry: the closed tile catalog, its per-variant behaviour tables
//! (drop, explode, collide, compatibility, score), and the score-to-level
//! step function.

use vstd::prelude::*;

verus! {

/// The two liquids a flask can hold and spill.
#[derive(Copy, Clone, Debug, PartialEq, Eq, Structural)]
pub enum LiquidType {
    Acid,
    Glue,
}

/// The closed set of tile variants; each carries at most one small parameter.
#[derive(Copy, Clone, Debug, PartialEq, Eq, Structural)]
pub enum TileType {
    Plain(u8),
    Permanent,
    Killer(u8),
    Picker,
    Centerpiece(u8),
    Whopper(u8),
    Flask(LiquidType),
    Spillage(LiquidType),
    Plus,
    Minus,
}

/// What happens to one tile consumed by a detonation.
#[derive(Debug, PartialEq, Eq)]
pub enum ExplodeAction {
    Remove,
    Convert(TileType),
    Spill(LiquidType),
    Plus,
    Minus,
    Complex(Box<ExplodeAction>, Box<ExplodeAction>),
}

/// The highest score for which the level still fits in a byte: one hundred
/// times the 255th triangular number.
pub const MAX_LEVEL_SCORE: u32 = 3264000;

/// The triangular number 1 + 2 + ... + l.
pub open spec fn spec_triangle(l: int) -> int
    decreases l,
{
    if l <= 0 {
        0
    } else {
        l + spec_triangle(l - 1)
    }
}

/// Triangular numbers are monotone.
pub proof fn lemma_triangle_mono(a: int, b: int)
    requires
        a <= b,
    ensures
        spec_triangle(a) <= spec_triangle(b),
    decreases b,
{
    if a < b && b > 0 {
        lemma_triangle_mono(a, b - 1);
    }
}

/// Twice the triangular number has the closed form l * (l + 1).
pub proof fn lemma_triangle_double(l: int)
    requires
        l >= 0,
    ensures
        2 * spec_triangle(l) == l * (l + 1),
    decreases l,
{
    if l > 0 {
        let m = l - 1;
        lemma_triangle_double(m);
        assert(spec_triangle(l) == l + spec_triangle(m));
        assert(2 * spec_triangle(m) == m * (m + 1));
        assert(m * (m + 1) + 2 * l == l * (l + 1)) by (nonlinear_arith)
            requires
                m == l - 1,
        ;
        assert(2 * spec_triangle(l) == 2 * l + 2 * spec_triangle(m));
        assert(2 * spec_triangle(l) == 2 * l + m * (m + 1));
        assert(2 * spec_triangle(l) == l * (l + 1));
    } else {
        assert(l == 0);
        assert(l * (l + 1) == 0) by (nonlinear_arith)
            requires
                l == 0,
        ;
    }
}

/// `lvl` is the level reached at cumulative `score`: the least l with
/// 100 * triangle(l) >= score.
pub open spec fn spec_is_level(score: int, lvl: int) -> bool {
    0 <= lvl && 100 * spec_triangle(lvl) >= score && (lvl > 0 ==> 100 * spec_triangle(lvl - 1)
        < score)
}

/// At most one level matches a given score.
pub proof fn lemma_level_unique(score: int, a: int, b: int)
    requires
        spec_is_level(score, a),
        spec_is_level(score, b),
    ensures
        a == b,
{
    if a < b {
        lemma_triangle_mono(a, b - 1);
    }
    if b < a {
        lemma_triangle_mono(b, a - 1);
    }
}

/// The monotonic step function from cumulative score to level: thresholds
/// are 100, 300, 600, 1000, ... (triangular numbers scaled by 100).
pub fn level(score: u32) -> (lvl: u8)
    requires
        score <= MAX_LEVEL_SCORE,
    ensures
        spec_is_level(score as int, lvl as int),
{
    proof {
        lemma_triangle_double(255);
    }
    let mut base: u32 = 0;
    let mut lvl: u8 = 0;
    while base < score
        invariant
            score <= MAX_LEVEL_SCORE,
            base == 100 * spec_triangle(lvl as int),
            lvl > 0 ==> 100 * spec_triangle(lvl as int - 1) < score,
        decreases 255 - lvl,
    {
        proof {
            lemma_triangle_double(255);
            if lvl >= 255 {
                lemma_triangle_mono(255, lvl as int);
            }
            lemma_triangle_mono(lvl as int + 1, 255);
        }
        lvl += 1;
        base += lvl as u32 * 100;
    }
    lvl
}

/// Plain-class tiles: the ones an ordinary 3x3 match may consume.
pub open spec fn spec_is_plain(t: TileType) -> bool {
    match t {
        TileType::Plain(_) | TileType::Flask(_) | TileType::Plus | TileType::Minus => true,
        _ => false,
    }
}

/// Every tile but a spillage occupies space.
pub open spec fn spec_is_solid(t: TileType) -> bool {
    !(t matches TileType::Spillage(_))
}

/// The transformation applied when a tile lands from the falling piece into
/// the playfield: a killer degrades to a plain tile, everything else passes
/// through; `None` would mean the tile vanishes on landing.
pub open spec fn spec_drop(t: TileType) -> Option<TileType> {
    match t {
        TileType::Killer(_) => Some(TileType::Plain(0)),
        _ => Some(t),
    }
}

/// The action taken when a tile is consumed by a detonation.
pub open spec fn spec_explode(t: TileType) -> ExplodeAction {
    match t {
        TileType::Plain(n) => if n == 0 {
            ExplodeAction::Remove
        } else {
            ExplodeAction::Convert(TileType::Plain((n - 1) as u8))
        },
        TileType::Centerpiece(n) => if n == 1 {
            ExplodeAction::Remove
        } else {
            ExplodeAction::Convert(TileType::Centerpiece((n - 1) as u8))
        },
        TileType::Whopper(n) => ExplodeAction::Convert(TileType::Centerpiece(n)),
        TileType::Flask(liquid) => ExplodeAction::Spill(liquid),
        TileType::Plus => ExplodeAction::Complex(
            Box::new(ExplodeAction::Remove),
            Box::new(ExplodeAction::Plus),
        ),
        TileType::Minus => ExplodeAction::Complex(
            Box::new(ExplodeAction::Remove),
            Box::new(ExplodeAction::Minus),
        ),
        _ => ExplodeAction::Remove,
    }
}

/// The asymmetric compatibility predicate used when scanning neighborhoods:
/// may a detonation started by `t1` consume a neighboring `t2`?
pub open spec fn spec_explodes(t1: TileType, t2: TileType) -> bool {
    if spec_is_plain(t1) {
        spec_is_plain(t2)
    } else {
        match t1 {
            TileType::Centerpiece(_) => (t2 matches TileType::Centerpiece(_)) || spec_is_plain(t2),
            TileType::Whopper(_) => (t2 matches TileType::Centerpiece(_)) || (
            t2 matches TileType::Whopper(_)) || spec_is_plain(t2),
            _ => false,
        }
    }
}

/// The pairwise rule applied when a falling tile `t1` lands on an occupying
/// playfield tile `t2`: what remains on each side.
pub open spec fn spec_collide(t1: TileType, t2: TileType) -> (Option<TileType>, Option<
    TileType,
>) {
    match (t1, t2) {
        (_, TileType::Spillage(LiquidType::Acid)) => (None, None),
        (_, TileType::Spillage(LiquidType::Glue)) => (None, spec_drop(t1)),
        (TileType::Picker, _) => (spec_drop(t2), None),
        (_, TileType::Picker) => (None, spec_drop(t1)),
        (TileType::Killer(n), _) => if n == 1 {
            (None, None)
        } else {
            (Some(TileType::Killer((n - 1) as u8)), None)
        },
        (_, TileType::Killer(n)) => if n == 1 {
            (None, None)
        } else {
            (None, Some(TileType::Killer((n - 1) as u8)))
        },
        (m, n) => (Some(m), Some(n)),
    }
}

/// The reachability predicate: in the canonical chemistry every pair of tiles
/// collides.
pub open spec fn spec_collides(t1: TileType, t2: TileType) -> bool {
    true
}

/// Score value awarded per tile consumed.
pub open spec fn spec_bonus(t: TileType) -> int {
    match t {
        TileType::Plain(n) => n + 1,
        TileType::Centerpiece(n) => 10 * n,
        TileType::Whopper(_) => 30,
        _ => 1,
    }
}

/// Half the side of the square neighborhood a tile needs fully populated to
/// detonate: 2 (a 5x5 block) for a whopper, 1 (a 3x3 block) otherwise.
pub open spec fn spec_shape_radius(t: TileType) -> int {
    match t {
        TileType::Whopper(_) => 2,
        _ => 1,
    }
}

/// The neighborhood offsets a tile must have fully populated to detonate,
/// in row-major order.
pub open spec fn spec_explode_shape(t: TileType) -> Seq<(i16, i16)> {
    match t {
        TileType::Whopper(_) => seq![
            (-2i16, -2i16), (-1i16, -2i16), (0i16, -2i16), (1i16, -2i16), (2i16, -2i16),
            (-2i16, -1i16), (-1i16, -1i16), (0i16, -1i16), (1i16, -1i16), (2i16, -1i16),
            (-2i16, 0i16), (-1i16, 0i16), (0i16, 0i16), (1i16, 0i16), (2i16, 0i16),
            (-2i16, 1i16), (-1i16, 1i16), (0i16, 1i16), (1i16, 1i16), (2i16, 1i16),
            (-2i16, 2i16), (-1i16, 2i16), (0i16, 2i16), (1i16, 2i16), (2i16, 2i16),
        ],
        _ => seq![
            (-1i16, -1i16), (0i16, -1i16), (1i16, -1i16),
            (-1i16, 0i16), (0i16, 0i16), (1i16, 0i16),
            (-1i16, 1i16), (0i16, 1i16), (1i16, 1i16),
        ],
    }
}

/// A tile parameter that the behaviour tables can decrement without
/// underflowing: killers and centerpieces carry at least one charge.
pub open spec fn spec_killer_wf(t: TileType) -> bool {
    t matches TileType::Killer(n) ==> n >= 1
}

/// A centerpiece must carry at least one charge for its explosion action to
/// be meaningful.
pub open spec fn spec_centerpiece_wf(t: TileType) -> bool {
    t matches TileType::Centerpiece(n) ==> n >= 1
}

/// Which tiles the random generator may produce once level `lvl` is reached,
/// and with which parameter bounds.
pub open spec fn spec_unlocked(t: TileType, lvl: int) -> bool {
    match t {
        TileType::Plain(n) => n == 0 || (lvl >= 2 && 1 <= n <= lvl),
        TileType::Picker => true,
        TileType::Plus | TileType::Minus => lvl >= 1,
        TileType::Flask(_) => lvl >= 3,
        TileType::Killer(n) => lvl >= 4 && 1 <= n <= lvl / 8 + 1,
        TileType::Centerpiece(n) => lvl >= 5 && 1 <= n <= lvl / 4 + 1,
        TileType::Whopper(n) => lvl >= 6 && 1 <= n <= lvl / 4 + 1,
        TileType::Permanent => lvl >= 8,
        TileType::Spillage(_) => false,
    }
}

/// The superscript character display uses for a tile parameter.
pub open spec fn spec_digit_sup(n: u8) -> char {
    if n == 0 {
        '\u{2070}'
    } else if n == 1 {
        ' '
    } else if n == 2 {
        '\u{00b2}'
    } else if n == 3 {
        '\u{00b3}'
    } else if n == 4 {
        '\u{2074}'
    } else if n == 5 {
        '\u{2075}'
    } else if n == 6 {
        '\u{2076}'
    } else if n == 7 {
        '\u{2077}'
    } else if n == 8 {
        '\u{2078}'
    } else if n == 9 {
        '\u{2079}'
    } else {
        '\u{207f}'
    }
}

/// The display characters of a tile: three for a solid tile, one for a
/// spillage.
pub open spec fn spec_tile_face(t: TileType) -> Seq<char> {
    match t {
        TileType::Permanent => seq![' ', '\u{2716}', ' '],
        TileType::Picker => seq!['[', ' ', ']'],
        TileType::Flask(LiquidType::Glue) => seq![' ', '\u{25bf}', ' '],
        TileType::Flask(LiquidType::Acid) => seq![' ', '\u{25b4}', ' '],
        TileType::Plus => seq![' ', '+', ' '],
        TileType::Minus => seq![' ', '-', ' '],
        TileType::Plain(n) => if n == 0 {
            seq![' ', ' ', ' ']
        } else {
            seq![' ', '\u{2022}', spec_digit_sup(n)]
        },
        TileType::Killer(n) => seq![' ', '\u{21af}', spec_digit_sup(n)],
        TileType::Centerpiece(n) => seq![' ', '\u{25c9}', spec_digit_sup(n)],
        TileType::Whopper(n) => seq![' ', '\u{2731}', spec_digit_sup(n)],
        TileType::Spillage(LiquidType::Glue) => seq!['\u{25bf}'],
        TileType::Spillage(LiquidType::Acid) => seq!['\u{25b4}'],
    }
}

impl TileType {
    /// Draw a tile from the weighted outcome table in one pass over the
    /// cumulative weights; higher-tier variants join the table as the level
    /// thresholds are met.
    pub fn new_random(score: u32) -> (r: TileType)
        requires
            score <= MAX_LEVEL_SCORE,
        ensures
            forall|l: int| spec_is_level(score as int, l) ==> spec_unlocked(r, l),
    {
        let lvl = level(score);
        proof {
            assert forall|l: int| spec_is_level(score as int, l) implies l == lvl as int by {
                lemma_level_unique(score as int, l, lvl as int);
            }
        }
        // Weights are doubled throughout so that the rarest outcome, which
        // carries half the weight of the other single-slot outcomes, stays
        // integral.
        let mut total: u32 = 48;
        if lvl >= 1 {
            total += 2;
        }
        if lvl >= 2 {
            total += 4;
        }
        if lvl >= 3 {
            total += 2;
        }
        if lvl >= 4 {
            total += 2;
        }
        if lvl >= 5 {
            total += 4;
        }
        if lvl >= 6 {
            total += 2;
        }
        if lvl >= 8 {
            total += 1;
        }
        let mut t = crate::rng::random_below(total);
        if t < 42 {
            return TileType::Plain(0);
        }
        t -= 42;
        if t < 6 {
            return TileType::Picker;
        }
        t -= 6;
        if lvl >= 1 {
            if t < 2 {
                return if crate::rng::random_flip() {
                    TileType::Minus
                } else {
                    TileType::Plus
                };
            }
            t -= 2;
        }
        if lvl >= 2 {
            if t < 4 {
                let k = crate::rng::random_below(lvl as u32) as u8;
                return TileType::Plain(1 + k);
            }
            t -= 4;
        }
        if lvl >= 3 {
            if t < 2 {
                return TileType::Flask(
                    if crate::rng::random_flip() {
                        LiquidType::Acid
                    } else {
                        LiquidType::Glue
                    },
                );
            }
            t -= 2;
        }
        if lvl >= 4 {
            if t < 2 {
                let k = crate::rng::random_below(lvl as u32 / 8 + 1) as u8;
                return TileType::Killer(1 + k);
            }
            t -= 2;
        }
        if lvl >= 5 {
            if t < 4 {
                let k = crate::rng::random_below(lvl as u32 / 4 + 1) as u8;
                return TileType::Centerpiece(1 + k);
            }
            t -= 4;
        }
        if lvl >= 6 {
            if t < 2 {
                let k = crate::rng::random_below(lvl as u32 / 4 + 1) as u8;
                return TileType::Whopper(1 + k);
            }
            t -= 2;
        }
        TileType::Permanent
    }

    /// The display glyphs of this tile: three characters for a solid tile,
    /// one bare character for a spillage.
    pub fn render(&self) -> (r: &'static str)
        ensures
            r@ == spec_tile_face(*self),
    {
        match *self {
            TileType::Permanent => {
                proof {
                    reveal_strlit(" \u{2716} ");
                    assert(" \u{2716} "@ =~= spec_tile_face(*self));
                }
                " \u{2716} "
            },
            TileType::Picker => {
                proof {
                    reveal_strlit("[ ]");
                    assert("[ ]"@ =~= spec_tile_face(*self));
                }
                "[ ]"
            },
            TileType::Flask(LiquidType::Glue) => {
                proof {
                    reveal_strlit(" \u{25bf} ");
                    assert(" \u{25bf} "@ =~= spec_tile_face(*self));
                }
                " \u{25bf} "
            },
            TileType::Flask(LiquidType::Acid) => {
                proof {
                    reveal_strlit(" \u{25b4} ");
                    assert(" \u{25b4} "@ =~= spec_tile_face(*self));
                }
                " \u{25b4} "
            },
            TileType::Plus => {
                proof {
                    reveal_strlit(" + ");
                    assert(" + "@ =~= spec_tile_face(*self));
                }
                " + "
            },
            TileType::Minus => {
                proof {
                    reveal_strlit(" - ");
                    assert(" - "@ =~= spec_tile_face(*self));
                }
                " - "
            },
            TileType::Plain(n) => {
                match n {
                    0 => {
                        proof {
                            reveal_strlit("   ");
                            assert("   "@ =~= spec_tile_face(*self));
                        }
                        "   "
                    },
                    1 => {
                        proof {
                            reveal_strlit(" \u{2022} ");
                            assert(" \u{2022} "@ =~= spec_tile_face(*self));
                        }
                        " \u{2022} "
                    },
                    2 => {
                        proof {
                            reveal_strlit(" \u{2022}\u{00b2}");
                            assert(" \u{2022}\u{00b2}"@ =~= spec_tile_face(*self));
                        }
                        " \u{2022}\u{00b2}"
                    },
                    3 => {
                        proof {
                            reveal_strlit(" \u{2022}\u{00b3}");
                            assert(" \u{2022}\u{00b3}"@ =~= spec_tile_face(*self));
                        }
                        " \u{2022}\u{00b3}"
                    },
                    4 => {
                        proof {
                            reveal_strlit(" \u{2022}\u{2074}");
                            assert(" \u{2022}\u{2074}"@ =~= spec_tile_face(*self));
                        }
                        " \u{2022}\u{2074}"
                    },
                    5 => {
                        proof {
                            reveal_strlit(" \u{2022}\u{2075}");
                            assert(" \u{2022}\u{2075}"@ =~= spec_tile_face(*self));
                        }
                        " \u{2022}\u{2075}"
                    },
                    6 => {
                        proof {
                            reveal_strlit(" \u{2022}\u{2076}");
                            assert(" \u{2022}\u{2076}"@ =~= spec_tile_face(*self));
                        }
                        " \u{2022}\u{2076}"
                    },
                    7 => {
                        proof {
                            reveal_strlit(" \u{2022}\u{2077}");
                            assert(" \u{2022}\u{2077}"@ =~= spec_tile_face(*self));
                        }
                        " \u{2022}\u{2077}"
                    },
                    8 => {
                        proof {
                            reveal_strlit(" \u{2022}\u{2078}");
                            assert(" \u{2022}\u{2078}"@ =~= spec_tile_face(*self));
                        }
                        " \u{2022}\u{2078}"
                    },
                    9 => {
                        proof {
                            reveal_strlit(" \u{2022}\u{2079}");
                            assert(" \u{2022}\u{2079}"@ =~= spec_tile_face(*self));
                        }
                        " \u{2022}\u{2079}"
                    },
                    _ => {
                        proof {
                            reveal_strlit(" \u{2022}\u{207f}");
                            assert(" \u{2022}\u{207f}"@ =~= spec_tile_face(*self));
                        }
                        " \u{2022}\u{207f}"
                    },
                }
            },
            TileType::Killer(n) => {
                match n {
                    0 => {
                        proof {
                            reveal_strlit(" \u{21af}\u{2070}");
                            assert(" \u{21af}\u{2070}"@ =~= spec_tile_face(*self));
                        }
                        " \u{21af}\u{2070}"
                    },
                    1 => {
                        proof {
                            reveal_strlit(" \u{21af} ");
                            assert(" \u{21af} "@ =~= spec_tile_face(*self));
                        }
                        " \u{21af} "
                    },
                    2 => {
                        proof {
                            reveal_strlit(" \u{21af}\u{00b2}");
                            assert(" \u{21af}\u{00b2}"@ =~= spec_tile_face(*self));
                        }
                        " \u{21af}\u{00b2}"
                    },
                    3 => {
                        proof {
                            reveal_strlit(" \u{21af}\u{00b3}");
                            assert(" \u{21af}\u{00b3}"@ =~= spec_tile_face(*self));
                        }
                        " \u{21af}\u{00b3}"
                    },
                    4 => {
                        proof {
                            reveal_strlit(" \u{21af}\u{2074}");
                            assert(" \u{21af}\u{2074}"@ =~= spec_tile_face(*self));
                        }
                        " \u{21af}\u{2074}"
                    },
                    5 => {
                        proof {
                            reveal_strlit(" \u{21af}\u{2075}");
                            assert(" \u{21af}\u{2075}"@ =~= spec_tile_face(*self));
                        }
                        " \u{21af}\u{2075}"
                    },
                    6 => {
                        proof {
                            reveal_strlit(" \u{21af}\u{2076}");
                            assert(" \u{21af}\u{2076}"@ =~= spec_tile_face(*self));
                        }
                        " \u{21af}\u{2076}"
                    },
                    7 => {
                        proof {
                            reveal_strlit(" \u{21af}\u{2077}");
                            assert(" \u{21af}\u{2077}"@ =~= spec_tile_face(*self));
                        }
                        " \u{21af}\u{2077}"
                    },
                    8 => {
                        proof {
                            reveal_strlit(" \u{21af}\u{2078}");
                            assert(" \u{21af}\u{2078}"@ =~= spec_tile_face(*self));
                        }
                        " \u{21af}\u{2078}"
                    },
                    9 => {
                        proof {
                            reveal_strlit(" \u{21af}\u{2079}");
                            assert(" \u{21af}\u{2079}"@ =~= spec_tile_face(*self));
                        }
                        " \u{21af}\u{2079}"
                    },
                    _ => {
                        proof {
                            reveal_strlit(" \u{21af}\u{207f}");
                            assert(" \u{21af}\u{207f}"@ =~= spec_tile_face(*self));
                        }
                        " \u{21af}\u{207f}"
                    },
                }
            },
            TileType::Centerpiece(n) => {
                match n {
                    0 => {
                        proof {
                            reveal_strlit(" \u{25c9}\u{2070}");
                            assert(" \u{25c9}\u{2070}"@ =~= spec_tile_face(*self));
                        }
                        " \u{25c9}\u{2070}"
                    },
                    1 => {
                        proof {
                            reveal_strlit(" \u{25c9} ");
                            assert(" \u{25c9} "@ =~= spec_tile_face(*self));
                        }
                        " \u{25c9} "
                    },
                    2 => {
                        proof {
                            reveal_strlit(" \u{25c9}\u{00b2}");
                            assert(" \u{25c9}\u{00b2}"@ =~= spec_tile_face(*self));
                        }
                        " \u{25c9}\u{00b2}"
                    },
                    3 => {
                        proof {
                            reveal_strlit(" \u{25c9}\u{00b3}");
                            assert(" \u{25c9}\u{00b3}"@ =~= spec_tile_face(*self));
                        }
                        " \u{25c9}\u{00b3}"
                    },
                    4 => {
                        proof {
                            reveal_strlit(" \u{25c9}\u{2074}");
                            assert(" \u{25c9}\u{2074}"@ =~= spec_tile_face(*self));
                        }
                        " \u{25c9}\u{2074}"
                    },
                    5 => {
                        proof {
                            reveal_strlit(" \u{25c9}\u{2075}");
                            assert(" \u{25c9}\u{2075}"@ =~= spec_tile_face(*self));
                        }
                        " \u{25c9}\u{2075}"
                    },
                    6 => {
                        proof {
                            reveal_strlit(" \u{25c9}\u{2076}");
                            assert(" \u{25c9}\u{2076}"@ =~= spec_tile_face(*self));
                        }
                        " \u{25c9}\u{2076}"
                    },
                    7 => {
                        proof {
                            reveal_strlit(" \u{25c9}\u{2077}");
                            assert(" \u{25c9}\u{2077}"@ =~= spec_tile_face(*self));
                        }
                        " \u{25c9}\u{2077}"
                    },
                    8 => {
                        proof {
                            reveal_strlit(" \u{25c9}\u{2078}");
                            assert(" \u{25c9}\u{2078}"@ =~= spec_tile_face(*self));
                        }
                        " \u{25c9}\u{2078}"
                    },
                    9 => {
                        proof {
                            reveal_strlit(" \u{25c9}\u{2079}");
                            assert(" \u{25c9}\u{2079}"@ =~= spec_tile_face(*self));
                        }
                        " \u{25c9}\u{2079}"
                    },
                    _ => {
                        proof {
                            reveal_strlit(" \u{25c9}\u{207f}");
                            assert(" \u{25c9}\u{207f}"@ =~= spec_tile_face(*self));
                        }
                        " \u{25c9}\u{207f}"
                    },
                }
            },
            TileType::Whopper(n) => {
                match n {
                    0 => {
                        proof {
                            reveal_strlit(" \u{2731}\u{2070}");
                            assert(" \u{2731}\u{2070}"@ =~= spec_tile_face(*self));
                        }
                        " \u{2731}\u{2070}"
                    },
                    1 => {
                        proof {
                            reveal_strlit(" \u{2731} ");
                            assert(" \u{2731} "@ =~= spec_tile_face(*self));
                        }
                        " \u{2731} "
                    },
                    2 => {
                        proof {
                            reveal_strlit(" \u{2731}\u{00b2}");
                            assert(" \u{2731}\u{00b2}"@ =~= spec_tile_face(*self));
                        }
                        " \u{2731}\u{00b2}"
                    },
                    3 => {
                        proof {
                            reveal_strlit(" \u{2731}\u{00b3}");
                            assert(" \u{2731}\u{00b3}"@ =~= spec_tile_face(*self));
                        }
                        " \u{2731}\u{00b3}"
                    },
                    4 => {
                        proof {
                            reveal_strlit(" \u{2731}\u{2074}");
                            assert(" \u{2731}\u{2074}"@ =~= spec_tile_face(*self));
                        }
                        " \u{2731}\u{2074}"
                    },
                    5 => {
                        proof {
                            reveal_strlit(" \u{2731}\u{2075}");
                            assert(" \u{2731}\u{2075}"@ =~= spec_tile_face(*self));
                        }
                        " \u{2731}\u{2075}"
                    },
                    6 => {
                        proof {
                            reveal_strlit(" \u{2731}\u{2076}");
                            assert(" \u{2731}\u{2076}"@ =~= spec_tile_face(*self));
                        }
                        " \u{2731}\u{2076}"
                    },
                    7 => {
                        proof {
                            reveal_strlit(" \u{2731}\u{2077}");
                            assert(" \u{2731}\u{2077}"@ =~= spec_tile_face(*self));
                        }
                        " \u{2731}\u{2077}"
                    },
                    8 => {
                        proof {
                            reveal_strlit(" \u{2731}\u{2078}");
                            assert(" \u{2731}\u{2078}"@ =~= spec_tile_face(*self));
                        }
                        " \u{2731}\u{2078}"
                    },
                    9 => {
                        proof {
                            reveal_strlit(" \u{2731}\u{2079}");
                            assert(" \u{2731}\u{2079}"@ =~= spec_tile_face(*self));
                        }
                        " \u{2731}\u{2079}"
                    },
                    _ => {
                        proof {
                            reveal_strlit(" \u{2731}\u{207f}");
                            assert(" \u{2731}\u{207f}"@ =~= spec_tile_face(*self));
                        }
                        " \u{2731}\u{207f}"
                    },
                }
            },
            TileType::Spillage(LiquidType::Glue) => {
                proof {
                    reveal_strlit("\u{25bf}");
                    assert("\u{25bf}"@ =~= spec_tile_face(*self));
                }
                "\u{25bf}"
            },
            TileType::Spillage(LiquidType::Acid) => {
                proof {
                    reveal_strlit("\u{25b4}");
                    assert("\u{25b4}"@ =~= spec_tile_face(*self));
                }
                "\u{25b4}"
            },
        }
    }

    /// Whether this is a plain-class (shield/marker) tile.
    pub fn is_plain(&self) -> (r: bool)
        ensures
            r == spec_is_plain(*self),
    {
        match *self {
            TileType::Plain(_) | TileType::Flask(_) | TileType::Plus | TileType::Minus => true,
            _ => false,
        }
    }

    /// Whether this tile occupies space and blocks movement.
    pub fn is_solid(&self) -> (r: bool)
        ensures
            r == spec_is_solid(*self),
    {
        match *self {
            TileType::Spillage(_) => false,
            _ => true,
        }
    }

    /// The transformation applied when this tile lands into the playfield.
    pub fn drop(&self) -> (r: Option<TileType>)
        ensures
            r == spec_drop(*self),
    {
        match *self {
            TileType::Killer(_) => Some(TileType::Plain(0)),
            tt => Some(tt),
        }
    }

    /// The action taken when this tile is consumed by a detonation.
    pub fn explode(&self) -> (r: ExplodeAction)
        requires
            spec_centerpiece_wf(*self),
        ensures
            r == spec_explode(*self),
    {
        match *self {
            TileType::Plain(n) => if n == 0 {
                ExplodeAction::Remove
            } else {
                ExplodeAction::Convert(TileType::Plain(n - 1))
            },
            TileType::Centerpiece(n) => if n == 1 {
                ExplodeAction::Remove
            } else {
                ExplodeAction::Convert(TileType::Centerpiece(n - 1))
            },
            TileType::Whopper(n) => ExplodeAction::Convert(TileType::Centerpiece(n)),
            TileType::Flask(liquid) => ExplodeAction::Spill(liquid),
            TileType::Plus => ExplodeAction::Complex(
                Box::new(ExplodeAction::Remove),
                Box::new(ExplodeAction::Plus),
            ),
            TileType::Minus => ExplodeAction::Complex(
                Box::new(ExplodeAction::Remove),
                Box::new(ExplodeAction::Minus),
            ),
            _ => ExplodeAction::Remove,
        }
    }

    /// May a detonation started by this tile consume a neighboring `tt2`?
    pub fn explodes(&self, tt2: TileType) -> (r: bool)
        ensures
            r == spec_explodes(*self, tt2),
    {
        match *self {
            tt1 if tt1.is_plain() => tt2.is_plain(),
            TileType::Centerpiece(_) => {
                if let TileType::Centerpiece(_) = tt2 {
                    true
                } else {
                    tt2.is_plain()
                }
            },
            TileType::Whopper(_) => {
                match tt2 {
                    TileType::Centerpiece(_) | TileType::Whopper(_) => true,
                    _ => tt2.is_plain(),
                }
            },
            _ => false,
        }
    }

    /// The pairwise collision rule: what remains of `t1` (the landing tile)
    /// and of `t2` (the occupying tile).
    pub fn collide(t1: TileType, t2: TileType) -> (r: (Option<TileType>, Option<TileType>))
        requires
            spec_killer_wf(t1),
            spec_killer_wf(t2),
        ensures
            r == spec_collide(t1, t2),
    {
        match (t1, t2) {
            (_, TileType::Spillage(LiquidType::Acid)) => (None, None),
            (_, TileType::Spillage(LiquidType::Glue)) => (None, t1.drop()),
            (TileType::Picker, _) => (t2.drop(), None),
            (_, TileType::Picker) => (None, t1.drop()),
            (TileType::Killer(n), _) => if n == 1 {
                (None, None)
            } else {
                (Some(TileType::Killer(n - 1)), None)
            },
            (_, TileType::Killer(n)) => if n == 1 {
                (None, None)
            } else {
                (None, Some(TileType::Killer(n - 1)))
            },
            (m, n) => (Some(m), Some(n)),
        }
    }

    /// Whether two tiles interact at all when they meet; in the canonical
    /// chemistry this always holds.
    pub fn collides(t1: TileType, t2: TileType) -> (r: bool)
        ensures
            r == spec_collides(t1, t2),
    {
        match (t1, t2) {
            _ => true,
        }
    }

    /// The neighborhood offsets this tile needs fully populated to detonate.
    pub fn explode_shape(&self) -> (r: Vec<(i16, i16)>)
        ensures
            r@ == spec_explode_shape(*self),
    {
        let mut v: Vec<(i16, i16)> = Vec::new();
        match *self {
            TileType::Whopper(_) => {
                v.push((-2, -2)); v.push((-1, -2)); v.push((0, -2)); v.push((1, -2)); v.push((2, -2));
                v.push((-2, -1)); v.push((-1, -1)); v.push((0, -1)); v.push((1, -1)); v.push((2, -1));
                v.push((-2, 0)); v.push((-1, 0)); v.push((0, 0)); v.push((1, 0)); v.push((2, 0));
                v.push((-2, 1)); v.push((-1, 1)); v.push((0, 1)); v.push((1, 1)); v.push((2, 1));
                v.push((-2, 2)); v.push((-1, 2)); v.push((0, 2)); v.push((1, 2)); v.push((2, 2));
                proof {
                    assert(v@ =~= spec_explode_shape(*self));
                }
            },
            _ => {
                v.push((-1, -1)); v.push((0, -1)); v.push((1, -1));
                v.push((-1, 0)); v.push((0, 0)); v.push((1, 0));
                v.push((-1, 1)); v.push((0, 1)); v.push((1, 1));
                proof {
                    assert(v@ =~= spec_explode_shape(*self));
                }
            },
        }
        v
    }

    /// Score value awarded when this tile is consumed.
    pub fn bonus(&self) -> (r: u32)
        ensures
            r as int == spec_bonus(*self),
    {
        match *self {
            TileType::Plain(n) => n as u32 + 1,
            TileType::Centerpiece(n) => 10 * n as u32,
            TileType::Whopper(_) => 30,
            _ => 1,
        }
    }
}


/// Apply an explosion cycle's multiplier delta to the current multiplier,
/// clamping at zero: a negative delta never drives the multiplier below
/// zero.
pub fn apply_multiplier_delta(multiplier: u32, dmult: i32) -> (r: u32)
    requires
        i32::MIN < dmult,
        dmult > 0 ==> multiplier + dmult <= u32::MAX,
    ensures
        r as int == (if multiplier + dmult < 0 {
            0int
        } else {
            multiplier + dmult
        }),
{
    if dmult < 0 {
        let mag = (0 - dmult) as u32;
        if mag >= multiplier {
            0
        } else {
            multiplier - mag
        }
    } else {
        multiplier + dmult as u32
    }
}

/// A tile's display face has three characters if it is solid and one if it
/// is a spillage, and none of them is the null character.
pub proof fn lemma_face_len(t: TileType)
    ensures
        spec_is_solid(t) ==> spec_tile_face(t).len() == 3,
        !spec_is_solid(t) ==> spec_tile_face(t).len() == 1,
        forall|k: int|
            0 <= k < spec_tile_face(t).len() ==> #[trigger] spec_tile_face(t)[k] != '\u{0}',
{
}

} // verus!
