//! Evaluation: a saturating 16-bit centipawn score, and the tapered
//! piece-square evaluation of a position, from the mover's perspective.

use vstd::prelude::*;
use crate::game::{Game, GameV};
use crate::piece::{Piece, PieceKind, Player};
use crate::square::Square;

verus! {

/// A large winning score; mate in `n` plies is `MATE - n`.
pub const MATE_VALUE: i16 = 32000;

/// Scores beyond this threshold are mate scores.
pub const MATE_THRESHOLD: i16 = 31488;

/// Static evaluations are clamped symmetrically inside the mate range.
pub const EVAL_CLAMP: i16 = 30000;

/// Saturation to the 16-bit range.
pub open spec fn sat16(x: int) -> int {
    if x > 32767 {
        32767
    } else if x < -32768 {
        -32768
    } else {
        x
    }
}

/// Symmetric clamp for static evaluations.
pub open spec fn clamp_eval(x: int) -> int {
    if x > EVAL_CLAMP {
        EVAL_CLAMP as int
    } else if x < -(EVAL_CLAMP as int) {
        -(EVAL_CLAMP as int)
    } else {
        x
    }
}

/// A centipawn-scale score with saturating arithmetic.
#[derive(Clone, Copy, Debug, PartialEq, Eq, PartialOrd, Ord, Structural)]
pub struct Eval(pub i16);

impl Eval {
    #[verifier::allow_in_spec]
    pub fn new(v: i16) -> Eval
        returns
            (Eval(v)),
    {
        Eval(v)
    }

    /// The least score, the negation of `max`.
    #[verifier::allow_in_spec]
    pub fn min() -> Eval
        returns
            (Eval(-32767i16)),
    {
        Eval(-32767)
    }

    #[verifier::allow_in_spec]
    pub fn max() -> Eval
        returns
            (Eval(32767i16)),
    {
        Eval(32767)
    }

    #[verifier::allow_in_spec]
    pub fn draw() -> Eval
        returns
            (Eval(0i16)),
    {
        Eval(0)
    }

    /// The abort sentinel, distinct from every score the search returns.
    #[verifier::allow_in_spec]
    pub fn aborted() -> Eval
        returns
            (Eval(-32768i16)),
    {
        Eval(-32768)
    }

    /// Giving mate `plies` plies from the root.
    #[verifier::allow_in_spec]
    pub fn mate_in(plies: u8) -> Eval
        returns
            (Eval((MATE_VALUE - plies as i16) as i16)),
    {
        Eval(MATE_VALUE - plies as i16)
    }

    /// Being mated `plies` plies from the root.
    #[verifier::allow_in_spec]
    pub fn mated_in(plies: u8) -> Eval
        returns
            (Eval((-(MATE_VALUE - plies as i16)) as i16)),
    {
        Eval(-(MATE_VALUE - plies as i16))
    }

    pub fn add(self, rhs: Eval) -> (r: Eval)
        ensures
            r.0 as int == sat16(self.0 + rhs.0),
    {
        let x = self.0 as i32 + rhs.0 as i32;
        Eval(clamp16(x))
    }

    pub fn sub(self, rhs: Eval) -> (r: Eval)
        ensures
            r.0 as int == sat16(self.0 - rhs.0),
    {
        let x = self.0 as i32 - rhs.0 as i32;
        Eval(clamp16(x))
    }

    pub fn mul(self, rhs: i16) -> (r: Eval)
        ensures
            r.0 as int == sat16(self.0 * rhs),
    {
        proof {
            assert(-0x4000_0000 <= self.0 as int * rhs as int <= 0x4000_0000)
                by (nonlinear_arith)
                requires
                    -32768 <= self.0 as int <= 32767,
                    -32768 <= rhs as int <= 32767,
            ;
        }
        let x = self.0 as i64 * rhs as i64;
        let y = if x > 32767 {
            32767i64
        } else if x < -32768 {
            -32768i64
        } else {
            x
        };
        Eval(y as i16)
    }

    /// Saturating negation: `-(-32768)` is `32767`.
    pub fn neg(self) -> (r: Eval)
        ensures
            r.0 as int == sat16(-(self.0 as int)),
    {
        Eval(clamp16(-(self.0 as i32)))
    }

    /// Is this a mate score (for either side)?
    #[verifier::allow_in_spec]
    pub fn is_mate(self) -> bool
        returns
            (self.0 > MATE_THRESHOLD || self.0 < -MATE_THRESHOLD),
    {
        self.0 > MATE_THRESHOLD || self.0 < -MATE_THRESHOLD
    }

    /// For a mate score, the number of full moves to mate, signed by the
    /// winning side.
    pub fn is_mate_in_moves(self) -> (r: Option<i16>)
        ensures
            self.0 > MATE_THRESHOLD ==> r == Some((mate_distance(MATE_VALUE - self.0 + 1) as i16)),
            self.0 < -MATE_THRESHOLD ==> r == Some((-mate_distance(MATE_VALUE + self.0 + 1)) as i16),
            r is None <==> !self.is_mate(),
    {
        if self.0 > MATE_THRESHOLD {
            let d = MATE_VALUE as i32 - self.0 as i32 + 1;
            let d = if d < 0 {
                0
            } else {
                d
            };
            Some((d / 2) as i16)
        } else if self.0 < -MATE_THRESHOLD {
            let d = MATE_VALUE as i32 + self.0 as i32 + 1;
            let d = if d < 0 {
                0
            } else {
                d
            };
            Some(-(d / 2) as i16)
        } else {
            None
        }
    }

    /// Normalise a mate score for storing: distance measured from the
    /// current position rather than the root.
    pub fn with_mate_distance_from_position(self, plies: u8) -> (r: Eval)
        ensures
            self.0 > MATE_THRESHOLD ==> r.0 as int == sat16(self.0 + plies),
            self.0 < -MATE_THRESHOLD ==> r.0 as int == sat16(self.0 - plies),
            -MATE_THRESHOLD <= self.0 <= MATE_THRESHOLD ==> r == self,
    {
        if self.0 > MATE_THRESHOLD {
            Eval(clamp16(self.0 as i32 + plies as i32))
        } else if self.0 < -MATE_THRESHOLD {
            Eval(clamp16(self.0 as i32 - plies as i32))
        } else {
            self
        }
    }

    /// Undo the storing normalisation when reading a mate score back.
    pub fn with_mate_distance_from_root(self, plies: u8) -> (r: Eval)
        ensures
            self.0 > MATE_THRESHOLD ==> r.0 as int == sat16(self.0 - plies),
            self.0 < -MATE_THRESHOLD ==> r.0 as int == sat16(self.0 + plies),
            -MATE_THRESHOLD <= self.0 <= MATE_THRESHOLD ==> r == self,
    {
        if self.0 > MATE_THRESHOLD {
            Eval(clamp16(self.0 as i32 - plies as i32))
        } else if self.0 < -MATE_THRESHOLD {
            Eval(clamp16(self.0 as i32 + plies as i32))
        } else {
            self
        }
    }

    /// The score as a decimal pawn string, e.g. `-0.42`.
    pub fn to_pawn_string(self) -> String {
        let a = self.0 as i32;
        let mag = if a < 0 {
            -a
        } else {
            a
        };
        let whole = mag / 100;
        let frac = mag % 100;
        let sign = if a < 0 {
            "-"
        } else {
            ""
        };
        format_pawn_string(sign, whole, frac)
    }
}

/// Half the given ply distance, never negative: full moves to mate.
pub open spec fn mate_distance(d: int) -> int {
    if d < 0 {
        0
    } else {
        d / 2
    }
}

/// Saturate a 32-bit value into the 16-bit range.
fn clamp16(x: i32) -> (r: i16)
    ensures
        r as int == sat16(x as int),
{
    if x > 32767 {
        32767
    } else if x < -32768 {
        -32768
    } else {
        x as i16
    }
}

/// Relies on the format macro of std to join sign, whole and fractional
/// parts of a score.
#[verifier::external_body]
fn format_pawn_string(sign: &str, whole: i32, frac: i32) -> String {
    format!("{}{}.{:02}", sign, whole, frac)
}

/// The sum `f(0) + ... + f(n - 1)`.
pub open spec fn sum_over(f: spec_fn(int) -> int, n: int) -> int
    decreases n,
{
    if n <= 0 {
        0
    } else {
        sum_over(f, n - 1) + f(n - 1)
    }
}

/// The vertical mirror of square `i`.
pub open spec fn msq(i: int) -> int {
    (7 - i / 8) * 8 + i % 8
}

/// The visual table index (rank eight first) for `player`'s piece on
/// square `i`.
pub open spec fn visual_idx(player: Player, i: int) -> int {
    if player is White {
        (7 - i / 8) * 8 + i % 8
    } else {
        i
    }
}

/// The middlegame worth of the piece on square `i`, positive for White.
pub open spec fn sq_mg(op: Option<Piece>, i: int) -> int {
    match op {
        None => 0,
        Some(p) => {
            let e = crate::params::table_mg(p.kind, visual_idx(p.player, i));
            if p.player is White {
                e
            } else {
                -e
            }
        },
    }
}

/// The endgame worth of the piece on square `i`, positive for White.
pub open spec fn sq_eg(op: Option<Piece>, i: int) -> int {
    match op {
        None => 0,
        Some(p) => {
            let e = crate::params::table_eg(p.kind, visual_idx(p.player, i));
            if p.player is White {
                e
            } else {
                -e
            }
        },
    }
}

/// The game-phase weight of the piece on square `i`.
pub open spec fn sq_phase(op: Option<Piece>, i: int) -> int {
    match op {
        None => 0,
        Some(p) => match p.kind {
            PieceKind::Knight => 1,
            PieceKind::Bishop => 1,
            PieceKind::Rook => 2,
            PieceKind::Queen => 4,
            _ => 0,
        },
    }
}

/// One if the piece on square `i` is a bishop of `player`.
pub open spec fn sq_bishop(op: Option<Piece>, player: Player) -> int {
    match op {
        None => 0,
        Some(p) => if p.player == player && p.kind is Bishop {
            1int
        } else {
            0int
        },
    }
}

pub open spec fn board_mg(s: Seq<Option<Piece>>) -> int {
    sum_over(|i: int| sq_mg(s[i], i), 64)
}

pub open spec fn board_eg(s: Seq<Option<Piece>>) -> int {
    sum_over(|i: int| sq_eg(s[i], i), 64)
}

/// The phase in `[0, 24]`: full material is the middlegame.
pub open spec fn phase_of(s: Seq<Option<Piece>>) -> int {
    let p = sum_over(|i: int| sq_phase(s[i], i), 64);
    if p > 24 {
        24
    } else {
        p
    }
}

pub open spec fn bishop_count(s: Seq<Option<Piece>>, player: Player) -> int {
    sum_over(|i: int| sq_bishop(s[i], player), 64)
}

/// Truncating division, as the machine computes it.
pub open spec fn tdiv(a: int, b: int) -> int {
    if a >= 0 {
        a / b
    } else {
        -((-a) / b)
    }
}

pub open spec fn tapered(phase: int, mg: int, eg: int) -> int {
    tdiv(mg * phase + eg * (24 - phase), 24)
}

/// The bishop-pair bonus, positive for White, for one phase.
pub open spec fn pair_bonus(s: Seq<Option<Piece>>, per_pair: int) -> int {
    (if bishop_count(s, Player::White) >= 2 {
        per_pair
    } else {
        0
    }) - (if bishop_count(s, Player::Black) >= 2 {
        per_pair
    } else {
        0
    })
}

/// The evaluation of the position from White's side.
pub open spec fn white_score(s: Seq<Option<Piece>>) -> int {
    let mg = board_mg(s) + pair_bonus(s, crate::params::BISHOP_PAIR_MG as int);
    let eg = board_eg(s) + pair_bonus(s, crate::params::BISHOP_PAIR_EG as int);
    tapered(phase_of(s), mg, eg)
}

/// The evaluation from the mover's perspective, clamped inside the mate
/// range.
pub open spec fn spec_eval(g: GameV) -> int {
    let s = white_score(g.board.pieces);
    clamp_eval(
        if g.player is White {
            s
        } else {
            -s
        },
    )
}

/// The five totals of a position: middlegame sum, endgame sum, phase sum,
/// and the bishop counts of the two sides.
fn eval_totals(game: &Game) -> (r: (i32, i32, i32, i32, i32))
    requires
        game.inv(),
    ensures
        ({
            let s = game@.board.pieces;
            &&& r.0 as int == board_mg(s)
            &&& r.1 as int == board_eg(s)
            &&& r.2 as int == sum_over(|i: int| sq_phase(s[i], i), 64)
            &&& r.3 as int == bishop_count(s, Player::White)
            &&& r.4 as int == bishop_count(s, Player::Black)
            &&& -256000 <= r.0 <= 256000
            &&& -256000 <= r.1 <= 256000
            &&& 0 <= r.2 <= 256
            &&& 0 <= r.3 <= 64
            &&& 0 <= r.4 <= 64
        }),
{
    let ghost s = game@.board.pieces;
    let mut mg: i32 = 0;
    let mut eg: i32 = 0;
    let mut ph: i32 = 0;
    let mut wb: i32 = 0;
    let mut bb: i32 = 0;
    let mut i: u8 = 0;
    while i < 64
        invariant
            game.inv(),
            i <= 64,
            s == game@.board.pieces,
            mg as int == sum_over(|j: int| sq_mg(s[j], j), i as int),
            eg as int == sum_over(|j: int| sq_eg(s[j], j), i as int),
            ph as int == sum_over(|j: int| sq_phase(s[j], j), i as int),
            wb as int == sum_over(|j: int| sq_bishop(s[j], Player::White), i as int),
            bb as int == sum_over(|j: int| sq_bishop(s[j], Player::Black), i as int),
            -4000 * (i as int) <= mg <= 4000 * (i as int),
            -4000 * (i as int) <= eg <= 4000 * (i as int),
            0 <= ph <= 4 * (i as int),
            0 <= wb <= i as int,
            0 <= bb <= i as int,
        decreases 64 - i,
    {
        match game.board.piece_at(Square { index: i }) {
            None => {},
            Some(p) => {
                let white = matches!(p.player, Player::White);
                let vi: usize = if white {
                    ((7 - (i / 8)) * 8 + (i % 8)) as usize
                } else {
                    i as usize
                };
                proof {
                    assert(vi as int == visual_idx(p.player, i as int));
                    crate::params::lemma_table_bounds(p.kind, vi as int);
                }
                let e_mg = crate::params::lookup_mg(p.kind, vi) as i32;
                let e_eg = crate::params::lookup_eg(p.kind, vi) as i32;
                if white {
                    mg = mg + e_mg;
                    eg = eg + e_eg;
                } else {
                    mg = mg - e_mg;
                    eg = eg - e_eg;
                }
                ph = ph + (match p.kind {
                    PieceKind::Knight => 1,
                    PieceKind::Bishop => 1,
                    PieceKind::Rook => 2,
                    PieceKind::Queen => 4,
                    _ => 0,
                });
                if matches!(p.kind, PieceKind::Bishop) {
                    if white {
                        wb = wb + 1;
                    } else {
                        bb = bb + 1;
                    }
                }
            },
        }
        i = i + 1;
    }
    (mg, eg, ph, wb, bb)
}

/// The tapered piece-square evaluation of the position, from the mover's
/// perspective: positive means the side to move stands better.
pub fn eval(game: &Game) -> (r: Eval)
    requires
        game.inv(),
    ensures
        r.0 as int == spec_eval(game@),
{
    let ghost s = game@.board.pieces;
    let (mg, eg, ph, wb, bb) = eval_totals(game);
    let phase = if ph > 24 {
        24
    } else {
        ph
    };
    let pair_mg = (if wb >= 2 {
        crate::params::BISHOP_PAIR_MG as i32
    } else {
        0
    }) - (if bb >= 2 {
        crate::params::BISHOP_PAIR_MG as i32
    } else {
        0
    });
    let pair_eg = (if wb >= 2 {
        crate::params::BISHOP_PAIR_EG as i32
    } else {
        0
    }) - (if bb >= 2 {
        crate::params::BISHOP_PAIR_EG as i32
    } else {
        0
    });
    let mgt = mg + pair_mg;
    let egt = eg + pair_eg;
    proof {
        assert(-6200000 <= mgt as int * phase as int <= 6200000) by (nonlinear_arith)
            requires
                -257000 <= mgt as int <= 257000,
                0 <= phase as int <= 24,
        ;
        assert(-6200000 <= egt as int * (24 - phase as int) <= 6200000) by (nonlinear_arith)
            requires
                -257000 <= egt as int <= 257000,
                0 <= phase as int <= 24,
        ;
    }
    let num = mgt * phase + egt * (24 - phase);
    let t = if num >= 0 {
        num / 24
    } else {
        -((-num) / 24)
    };
    let persp = if matches!(game.player, Player::White) {
        t
    } else {
        -t
    };
    let clamped = if persp > EVAL_CLAMP as i32 {
        EVAL_CLAMP as i32
    } else if persp < -(EVAL_CLAMP as i32) {
        -(EVAL_CLAMP as i32)
    } else {
        persp
    };
    Eval(clamped as i16)
}

/// The evaluation broken into its terms, for inspection and tuning.
#[derive(Clone, Copy, Debug)]
pub struct EvalComponents {
    pub eval: Eval,
    pub piece_square_midgame: Eval,
    pub piece_square_endgame: Eval,
    pub phase_value: i16,
    pub piece_square_tables: Eval,
}

/// The terms of the evaluation: the two piece-square sums, the phase, and
/// the tapered piece-square score from the mover's perspective.
pub fn eval_components(game: &Game) -> (r: EvalComponents)
    requires
        game.inv(),
    ensures
        r.eval.0 as int == spec_eval(game@),
        r.piece_square_midgame.0 as int == sat16(board_mg(game@.board.pieces)),
        r.piece_square_endgame.0 as int == sat16(board_eg(game@.board.pieces)),
        r.phase_value as int == phase_of(game@.board.pieces),
        r.piece_square_tables.0 as int == spec_eval(game@),
{
    let e = eval(game);
    let (mg, eg, ph, _, _) = eval_totals(game);
    let phase = if ph > 24 {
        24
    } else {
        ph
    };
    let cmg = if mg > 32767 {
        32767
    } else if mg < -32768 {
        -32768
    } else {
        mg
    };
    let ceg = if eg > 32767 {
        32767
    } else if eg < -32768 {
        -32768
    } else {
        eg
    };
    EvalComponents {
        eval: e,
        piece_square_midgame: Eval(cmg as i16),
        piece_square_endgame: Eval(ceg as i16),
        phase_value: phase as i16,
        piece_square_tables: e,
    }
}

proof fn lemma_sum_neg(f: spec_fn(int) -> int, g: spec_fn(int) -> int, n: int)
    requires
        forall|j: int| 0 <= j < n ==> #[trigger] g(j) == -f(j),
    ensures
        sum_over(g, n) == -sum_over(f, n),
    decreases n,
{
    if n > 0 {
        lemma_sum_neg(f, g, n - 1);
    }
}

proof fn lemma_sum_same(f: spec_fn(int) -> int, g: spec_fn(int) -> int, n: int)
    requires
        forall|j: int| 0 <= j < n ==> #[trigger] g(j) == f(j),
    ensures
        sum_over(g, n) == sum_over(f, n),
    decreases n,
{
    if n > 0 {
        lemma_sum_same(f, g, n - 1);
    }
}

/// The sum of `f` over one row of eight squares starting at `base`.
spec fn rsum(f: spec_fn(int) -> int, base: int, k: int) -> int
    decreases k,
{
    if k <= 0 {
        0
    } else {
        rsum(f, base, k - 1) + f(base + k - 1)
    }
}

proof fn lemma_split(f: spec_fn(int) -> int, m: int, k: int)
    requires
        m >= 0,
        k >= 0,
    ensures
        sum_over(f, m + k) == sum_over(f, m) + rsum(f, m, k),
    decreases k,
{
    if k > 0 {
        lemma_split(f, m, k - 1);
    }
}

proof fn lemma_row_mirror(f: spec_fn(int) -> int, g: spec_fn(int) -> int, r: int, k: int)
    requires
        0 <= r < 8,
        0 <= k <= 8,
        forall|i: int| 0 <= i < 64 ==> #[trigger] g(i) == f(msq(i)),
    ensures
        rsum(g, 8 * r, k) == rsum(f, 8 * (7 - r), k),
    decreases k,
{
    if k > 0 {
        lemma_row_mirror(f, g, r, k - 1);
        let i = 8 * r + (k - 1);
        assert(i / 8 == r && i % 8 == k - 1) by (nonlinear_arith)
            requires
                0 <= r < 8,
                1 <= k <= 8,
                i == 8 * r + (k - 1),
        ;
        assert(msq(i) == 8 * (7 - r) + (k - 1));
        assert(g(i) == f(msq(i)));
    }
}

/// Summing over the vertically mirrored board gives the same total.
pub proof fn lemma_sum_mirror(f: spec_fn(int) -> int, g: spec_fn(int) -> int)
    requires
        forall|i: int| 0 <= i < 64 ==> #[trigger] g(i) == f(msq(i)),
    ensures
        sum_over(g, 64) == sum_over(f, 64),
{
    lemma_split(g, 0, 8);
    lemma_split(g, 8, 8);
    lemma_split(g, 16, 8);
    lemma_split(g, 24, 8);
    lemma_split(g, 32, 8);
    lemma_split(g, 40, 8);
    lemma_split(g, 48, 8);
    lemma_split(g, 56, 8);
    lemma_split(f, 0, 8);
    lemma_split(f, 8, 8);
    lemma_split(f, 16, 8);
    lemma_split(f, 24, 8);
    lemma_split(f, 32, 8);
    lemma_split(f, 40, 8);
    lemma_split(f, 48, 8);
    lemma_split(f, 56, 8);
    lemma_row_mirror(f, g, 0, 8);
    lemma_row_mirror(f, g, 1, 8);
    lemma_row_mirror(f, g, 2, 8);
    lemma_row_mirror(f, g, 3, 8);
    lemma_row_mirror(f, g, 4, 8);
    lemma_row_mirror(f, g, 5, 8);
    lemma_row_mirror(f, g, 6, 8);
    lemma_row_mirror(f, g, 7, 8);
}

/// The same piece for the other player.
pub open spec fn flip_piece(op: Option<Piece>) -> Option<Piece> {
    match op {
        None => None,
        Some(p) => Some(Piece { player: p.player.other(), kind: p.kind }),
    }
}

/// Eval symmetry: mirroring the board vertically and swapping the colors,
/// with the same side to move, negates the evaluation.
pub proof fn lemma_eval_mirror(g: GameV, h: GameV)
    requires
        g.board.pieces.len() == 64,
        h.board.pieces.len() == 64,
        forall|i: int|
            0 <= i < 64 ==> h.board.pieces[i] == #[trigger] flip_piece(g.board.pieces[msq(i)]),
        h.player == g.player,
    ensures
        spec_eval(h) == -spec_eval(g),
{
    let s = g.board.pieces;
    let t = h.board.pieces;
    let fmg = |i: int| sq_mg(s[i], i);
    let hmg = |i: int| sq_mg(t[i], i);
    let wmg = |i: int| fmg(msq(i));
    let feg = |i: int| sq_eg(s[i], i);
    let heg = |i: int| sq_eg(t[i], i);
    let weg = |i: int| feg(msq(i));
    let fph = |i: int| sq_phase(s[i], i);
    let hph = |i: int| sq_phase(t[i], i);
    let wph = |i: int| fph(msq(i));
    assert forall|i: int| 0 <= i < 64 implies #[trigger] hmg(i) == -wmg(i) by {
        lemma_msq_involution(i);
        assert(t[i] == flip_piece(s[msq(i)]));
    }
    assert forall|i: int| 0 <= i < 64 implies #[trigger] heg(i) == -weg(i) by {
        lemma_msq_involution(i);
        assert(t[i] == flip_piece(s[msq(i)]));
    }
    assert forall|i: int| 0 <= i < 64 implies #[trigger] hph(i) == wph(i) by {
        lemma_msq_involution(i);
        assert(t[i] == flip_piece(s[msq(i)]));
    }
    lemma_sum_mirror(fmg, wmg);
    lemma_sum_neg(wmg, hmg, 64);
    lemma_sum_mirror(feg, weg);
    lemma_sum_neg(weg, heg, 64);
    lemma_sum_mirror(fph, wph);
    lemma_sum_same(wph, hph, 64);
    let fwb = |i: int| sq_bishop(s[i], Player::White);
    let fbb = |i: int| sq_bishop(s[i], Player::Black);
    let hwb = |i: int| sq_bishop(t[i], Player::White);
    let hbb = |i: int| sq_bishop(t[i], Player::Black);
    let wwb = |i: int| fbb(msq(i));
    let wbb = |i: int| fwb(msq(i));
    assert forall|i: int| 0 <= i < 64 implies #[trigger] hwb(i) == wwb(i) by {
        lemma_msq_involution(i);
        assert(t[i] == flip_piece(s[msq(i)]));
    }
    assert forall|i: int| 0 <= i < 64 implies #[trigger] hbb(i) == wbb(i) by {
        lemma_msq_involution(i);
        assert(t[i] == flip_piece(s[msq(i)]));
    }
    lemma_sum_mirror(fbb, wwb);
    lemma_sum_same(wwb, hwb, 64);
    lemma_sum_mirror(fwb, wbb);
    lemma_sum_same(wbb, hbb, 64);
    assert(board_mg(t) == -board_mg(s));
    assert(board_eg(t) == -board_eg(s));
    assert(phase_of(t) == phase_of(s));
    assert(bishop_count(t, Player::White) == bishop_count(s, Player::Black));
    assert(bishop_count(t, Player::Black) == bishop_count(s, Player::White));
    let phase = phase_of(s);
    let mgt = board_mg(s) + pair_bonus(s, crate::params::BISHOP_PAIR_MG as int);
    let egt = board_eg(s) + pair_bonus(s, crate::params::BISHOP_PAIR_EG as int);
    assert(board_mg(t) + pair_bonus(t, crate::params::BISHOP_PAIR_MG as int) == -mgt);
    assert(board_eg(t) + pair_bonus(t, crate::params::BISHOP_PAIR_EG as int) == -egt);
    assert((-mgt) * phase + (-egt) * (24 - phase) == -(mgt * phase + egt * (24 - phase)))
        by (nonlinear_arith);
    assert(white_score(t) == -white_score(s));
}

/// The vertical mirror is an involution.
proof fn lemma_msq_involution(i: int)
    requires
        0 <= i < 64,
    ensures
        0 <= msq(i) < 64,
        msq(msq(i)) == i,
        msq(i) / 8 == 7 - i / 8,
        msq(i) % 8 == i % 8,
{
    let r = i / 8;
    let c = i % 8;
    assert(msq(i) == (7 - r) * 8 + c);
    assert(((7 - r) * 8 + c) / 8 == 7 - r && ((7 - r) * 8 + c) % 8 == c) by (nonlinear_arith)
        requires
            0 <= r < 8,
            0 <= c < 8,
    ;
}

} // verus!
