//! The ergonomic scoring model, in exact fixed-point arithmetic: a cost of
//! one frequency-weighted "point" is [`SCALE`]; distances between key
//! positions are carried in thousandths of a grid cell ([`DIST_UNIT`]).  The
//! transition-cost formula rounds down once, at its final division; every
//! other step below is exact integer arithmetic.

use vstd::prelude::*;

use crate::intuition::intuition_count_from;
use crate::intuition::intuition_score;
use crate::intuition::intuitions_wf;
use crate::intuition::Intuition;
use crate::keyboard::finger_score_from;
use crate::keyboard::KeymapConfig;
use crate::keyboard::PhysicalKey;
use crate::keys::Finger;
use crate::keys::FingerConfig;
use crate::keys::FingerKind;
use crate::keys::Key;
use crate::keys::KeyCode;
use crate::layout::Layout;
use crate::stats::Stats;

verus! {

/// The fixed-point unit of every score: one frequency-weighted point.
pub const SCALE: u64 = 1_000_000;

/// The fixed-point unit of distances: a scaled distance of `DIST_UNIT` is
/// one grid cell.
pub const DIST_UNIT: u64 = 1000;

/// The largest scaled distance two grid positions can have: the diagonal of
/// the largest expressible grid, in thousandths of a cell.
pub const MAX_SCALED_DISTANCE: u64 = 92_682_000;

/// The integer square root of `x`, rounded down; 0 for negative arguments.
pub open spec fn sqrt_floor(x: int) -> int
    decreases x,
{
    if x <= 0 {
        0
    } else {
        let r = sqrt_floor(x - 1);
        if (r + 1) * (r + 1) <= x {
            r + 1
        } else {
            r
        }
    }
}

/// `sqrt_floor(x)` squares to at most `x`, and is the largest such value.
pub proof fn lemma_sqrt_floor_bounds(x: int)
    requires
        0 <= x,
    ensures
        0 <= sqrt_floor(x),
        sqrt_floor(x) * sqrt_floor(x) <= x,
        x < (sqrt_floor(x) + 1) * (sqrt_floor(x) + 1),
    decreases x,
{
    if x > 0 {
        lemma_sqrt_floor_bounds(x - 1);
        let r = sqrt_floor(x - 1);
        if (r + 1) * (r + 1) <= x {
            assert((r + 2) * (r + 2) > (r + 1) * (r + 1) + 1) by (nonlinear_arith)
                requires
                    r >= 0,
            ;
        }
    }
}

/// Any value bracketing `x` between consecutive squares is its square root.
pub proof fn lemma_sqrt_floor_unique(x: int, r: int)
    requires
        0 <= r,
        r * r <= x,
        x < (r + 1) * (r + 1),
    ensures
        r == sqrt_floor(x),
{
    lemma_sqrt_floor_bounds(x);
    let s = sqrt_floor(x);
    if r < s {
        assert((r + 1) * (r + 1) <= s * s) by (nonlinear_arith)
            requires
                0 <= r,
                r < s,
        ;
    } else if s < r {
        assert((s + 1) * (s + 1) <= r * r) by (nonlinear_arith)
            requires
                0 <= s,
                s < r,
        ;
    }
}

/// The integer square root of `x`, rounded down, by bisection.
fn isqrt(x: u64) -> (r: u64)
    ensures
        r as int == sqrt_floor(x as int),
        (r as int) * (r as int) <= x as int,
        (x as int) < (r as int + 1) * (r as int + 1),
{
    let mut lo: u64 = 0;
    let mut hi: u64 = 0x1_0000_0000;
    proof {
        assert((hi as int) * (hi as int) > x as int) by (nonlinear_arith)
            requires
                hi == 0x1_0000_0000u64,
                x <= 0xFFFF_FFFF_FFFF_FFFFu64,
        ;
    }
    while lo + 1 < hi
        invariant
            lo < hi <= 0x1_0000_0000,
            (lo as int) * (lo as int) <= x as int,
            (x as int) < (hi as int) * (hi as int),
        decreases hi - lo,
    {
        let mid = lo + (hi - lo) / 2;
        proof {
            assert((mid as int) * (mid as int) < 18446744073709551616int) by (nonlinear_arith)
                requires
                    0 <= (mid as int) < 4294967296int,
            ;
        }
        if mid * mid <= x {
            lo = mid;
        } else {
            hi = mid;
        }
    }
    proof {
        lemma_sqrt_floor_unique(x as int, lo as int);
    }
    lo
}

/// The distance between two grid positions, in thousandths of a cell,
/// rounded down: the integer square root of the scaled squared distance.
pub open spec fn spec_scaled_distance(p1: (u16, u16), p2: (u16, u16)) -> int {
    let dx = p1.0 - p2.0;
    let dy = p1.1 - p2.1;
    sqrt_floor((DIST_UNIT * DIST_UNIT) as int * (dx * dx + dy * dy))
}

/// The scaled distance between the positions of two physical keys.
pub fn distance(key1: &PhysicalKey, key2: &PhysicalKey) -> (q: u64)
    ensures
        q as int == spec_scaled_distance(key1.position, key2.position),
        q <= MAX_SCALED_DISTANCE,
        q == 0 <==> key1.position == key2.position,
{
    let (x1, y1) = key1.position;
    let (x2, y2) = key2.position;
    let dx: u64 = if x1 >= x2 {
        (x1 - x2) as u64
    } else {
        (x2 - x1) as u64
    };
    let dy: u64 = if y1 >= y2 {
        (y1 - y2) as u64
    } else {
        (y2 - y1) as u64
    };
    proof {
        assert(dx as int * dx as int == (x1 - x2) * (x1 - x2) && dx * dx <= 4_294_836_225u64
            && (x1 - x2) * (x1 - x2) >= 0) by (nonlinear_arith)
            requires
                dx == x1 - x2 || dx == x2 - x1,
                dx <= 0xFFFFu64,
        ;
        assert(dy as int * dy as int == (y1 - y2) * (y1 - y2) && dy * dy <= 4_294_836_225u64
            && (y1 - y2) * (y1 - y2) >= 0) by (nonlinear_arith)
            requires
                dy == y1 - y2 || dy == y2 - y1,
                dy <= 0xFFFFu64,
        ;
    }
    let dd = dx * dx + dy * dy;
    proof {
        assert(dd <= 8_589_672_450u64);
        assert((DIST_UNIT * DIST_UNIT) as int * (dd as int)
            <= 8_589_672_450_000_000int) by (nonlinear_arith)
            requires
                dd <= 8_589_672_450u64,
        ;
    }
    let scaled = DIST_UNIT * DIST_UNIT * dd;
    let q = isqrt(scaled);
    proof {
        assert(q <= MAX_SCALED_DISTANCE) by (nonlinear_arith)
            requires
                (q as int) * (q as int) <= scaled as int,
                scaled <= 8_589_672_450_000_000u64,
        ;
        if key1.position == key2.position {
            assert(dx == 0 && dy == 0);
            assert(dd == 0) by (nonlinear_arith)
                requires
                    dd == dx * dx + dy * dy,
                    dx == 0u64,
                    dy == 0u64,
            ;
            assert(scaled == 0);
            assert(q == 0);
        } else {
            assert(dx != 0 || dy != 0);
            assert(dd >= 1) by (nonlinear_arith)
                requires
                    dd == dx * dx + dy * dy,
                    dx != 0u64 || dy != 0u64,
            ;
            assert(scaled >= 1_000_000) by (nonlinear_arith)
                requires
                    scaled == DIST_UNIT * DIST_UNIT * dd,
                    DIST_UNIT == 1000u64,
                    dd >= 1u64,
            ;
            assert((q as int + 1) * (q as int + 1) > 1_000_000int);
            assert(q >= 1) by (nonlinear_arith)
                requires
                    (q as int + 1) * (q as int + 1) > 1_000_000int,
                    q >= 0u64,
            ;
        }
    }
    q
}

/// How well two finger kinds of one hand work in sequence, in tenths: 1
/// (same-finger repeats, worst) up to 9 (index with thumb, best).
pub open spec fn synergy10(k1: FingerKind, k2: FingerKind) -> int {
    match (k1, k2) {
        (FingerKind::Pinky, FingerKind::Pinky) => 1,
        (FingerKind::Pinky, FingerKind::Ring) | (FingerKind::Ring, FingerKind::Pinky) => 2,
        (FingerKind::Pinky, FingerKind::Middle) | (FingerKind::Middle, FingerKind::Pinky) => 2,
        (FingerKind::Pinky, FingerKind::Index) | (FingerKind::Index, FingerKind::Pinky) => 5,
        (FingerKind::Pinky, FingerKind::Thumb) | (FingerKind::Thumb, FingerKind::Pinky) => 6,
        (FingerKind::Ring, FingerKind::Ring) => 1,
        (FingerKind::Ring, FingerKind::Middle) | (FingerKind::Middle, FingerKind::Ring) => 3,
        (FingerKind::Ring, FingerKind::Index) | (FingerKind::Index, FingerKind::Ring) => 3,
        (FingerKind::Ring, FingerKind::Thumb) | (FingerKind::Thumb, FingerKind::Ring) => 2,
        (FingerKind::Middle, FingerKind::Middle) => 2,
        (FingerKind::Middle, FingerKind::Index) | (FingerKind::Index, FingerKind::Middle) => 7,
        (FingerKind::Middle, FingerKind::Thumb) | (FingerKind::Thumb, FingerKind::Middle) => 7,
        (FingerKind::Index, FingerKind::Index) => 3,
        (FingerKind::Index, FingerKind::Thumb) | (FingerKind::Thumb, FingerKind::Index) => 9,
        (FingerKind::Thumb, FingerKind::Thumb) => 3,
    }
}

/// How strongly the transition cost of two finger kinds depends on the
/// distance travelled, in tenths: 1 (thumb pairs, least sensitive) up to 10
/// (same-finger repeats, fully distance-bound).
pub open spec fn distance_importance10(k1: FingerKind, k2: FingerKind) -> int {
    match (k1, k2) {
        (FingerKind::Pinky, FingerKind::Pinky) => 10,
        (FingerKind::Pinky, FingerKind::Ring) | (FingerKind::Ring, FingerKind::Pinky) => 9,
        (FingerKind::Pinky, FingerKind::Middle) | (FingerKind::Middle, FingerKind::Pinky) => 8,
        (FingerKind::Pinky, FingerKind::Index) | (FingerKind::Index, FingerKind::Pinky) => 2,
        (FingerKind::Pinky, FingerKind::Thumb) | (FingerKind::Thumb, FingerKind::Pinky) => 1,
        (FingerKind::Ring, FingerKind::Ring) => 10,
        (FingerKind::Ring, FingerKind::Middle) | (FingerKind::Middle, FingerKind::Ring) => 9,
        (FingerKind::Ring, FingerKind::Index) | (FingerKind::Index, FingerKind::Ring) => 5,
        (FingerKind::Ring, FingerKind::Thumb) | (FingerKind::Thumb, FingerKind::Ring) => 1,
        (FingerKind::Middle, FingerKind::Middle) => 10,
        (FingerKind::Middle, FingerKind::Index) | (FingerKind::Index, FingerKind::Middle) => 7,
        (FingerKind::Middle, FingerKind::Thumb) | (FingerKind::Thumb, FingerKind::Middle) => 1,
        (FingerKind::Index, FingerKind::Index) => 10,
        (FingerKind::Index, FingerKind::Thumb) | (FingerKind::Thumb, FingerKind::Index) => 2,
        (FingerKind::Thumb, FingerKind::Thumb) => 10,
    }
}

/// The cost of typing two keys in sequence, as a fraction of [`SCALE`]:
/// exactly `SCALE` (no penalty) for a repeated position or for fingers on
/// different hands; otherwise the synergy of the finger pair times a
/// distance score that falls from 1 toward `1 - w` as the distance grows,
/// where `w` is the pair's distance importance.  `q` is the scaled distance.
pub open spec fn spec_transition_cost(f1: Finger, f2: Finger, q: int) -> int {
    if q == 0 || f1.hand != f2.hand {
        SCALE as int
    } else {
        let syn = synergy10(f1.finger, f2.finger);
        let w = distance_importance10(f1.finger, f2.finger);
        (SCALE as int) * syn * ((10 - w) * (q + DIST_UNIT) + w * (DIST_UNIT as int)) / (100 * (q
            + DIST_UNIT))
    }
}

/// The transition cost lies between one thousandth of a point and one
/// point: positive, so more uses of a pair always cost more.
pub proof fn lemma_transition_cost_bounds(f1: Finger, f2: Finger, q: int)
    requires
        0 <= q <= MAX_SCALED_DISTANCE,
    ensures
        1 <= spec_transition_cost(f1, f2, q) <= SCALE,
{
    if q != 0 && f1.hand == f2.hand {
        let syn = synergy10(f1.finger, f2.finger);
        let w = distance_importance10(f1.finger, f2.finger);
        let qs = q + DIST_UNIT;
        let num = (SCALE as int) * syn * ((10 - w) * qs + w * (DIST_UNIT as int));
        let den = 100 * qs;
        assert(1 <= syn <= 9 && 1 <= w <= 10);
        assert(den <= num && num <= (SCALE as int) * den) by (nonlinear_arith)
            requires
                num == (SCALE as int) * syn * ((10 - w) * qs + w * (DIST_UNIT as int)),
                den == 100 * qs,
                1 <= syn <= 9,
                1 <= w <= 10,
                1000 < qs <= 92_683_000,
        ;
        assert(1 <= num / den <= SCALE) by (nonlinear_arith)
            requires
                0 < den,
                den <= num,
                num <= (SCALE as int) * den,
        ;
    }
}

/// The cost of pressing the key under `f2` directly after the key under
/// `f1`, the two being `scaled_distance` thousandths of a cell apart.
pub fn consecutive_finger_score(f1: Finger, f2: Finger, scaled_distance: u64) -> (cost: u64)
    requires
        scaled_distance <= MAX_SCALED_DISTANCE,
    ensures
        cost as int == spec_transition_cost(f1, f2, scaled_distance as int),
        1 <= cost <= SCALE,
        scaled_distance == 0 ==> cost == SCALE,
        f1.hand != f2.hand ==> cost == SCALE,
{
    proof {
        lemma_transition_cost_bounds(f1, f2, scaled_distance as int);
    }
    if scaled_distance == 0 {
        return SCALE;
    }
    if f1.hand != f2.hand {
        return SCALE;
    }
    let syn: u64 = match (f1.finger, f2.finger) {
        (FingerKind::Pinky, FingerKind::Pinky) => 1,
        (FingerKind::Pinky, FingerKind::Ring) | (FingerKind::Ring, FingerKind::Pinky) => 2,
        (FingerKind::Pinky, FingerKind::Middle) | (FingerKind::Middle, FingerKind::Pinky) => 2,
        (FingerKind::Pinky, FingerKind::Index) | (FingerKind::Index, FingerKind::Pinky) => 5,
        (FingerKind::Pinky, FingerKind::Thumb) | (FingerKind::Thumb, FingerKind::Pinky) => 6,
        (FingerKind::Ring, FingerKind::Ring) => 1,
        (FingerKind::Ring, FingerKind::Middle) | (FingerKind::Middle, FingerKind::Ring) => 3,
        (FingerKind::Ring, FingerKind::Index) | (FingerKind::Index, FingerKind::Ring) => 3,
        (FingerKind::Ring, FingerKind::Thumb) | (FingerKind::Thumb, FingerKind::Ring) => 2,
        (FingerKind::Middle, FingerKind::Middle) => 2,
        (FingerKind::Middle, FingerKind::Index) | (FingerKind::Index, FingerKind::Middle) => 7,
        (FingerKind::Middle, FingerKind::Thumb) | (FingerKind::Thumb, FingerKind::Middle) => 7,
        (FingerKind::Index, FingerKind::Index) => 3,
        (FingerKind::Index, FingerKind::Thumb) | (FingerKind::Thumb, FingerKind::Index) => 9,
        (FingerKind::Thumb, FingerKind::Thumb) => 3,
    };
    let w: u64 = match (f1.finger, f2.finger) {
        (FingerKind::Pinky, FingerKind::Pinky) => 10,
        (FingerKind::Pinky, FingerKind::Ring) | (FingerKind::Ring, FingerKind::Pinky) => 9,
        (FingerKind::Pinky, FingerKind::Middle) | (FingerKind::Middle, FingerKind::Pinky) => 8,
        (FingerKind::Pinky, FingerKind::Index) | (FingerKind::Index, FingerKind::Pinky) => 2,
        (FingerKind::Pinky, FingerKind::Thumb) | (FingerKind::Thumb, FingerKind::Pinky) => 1,
        (FingerKind::Ring, FingerKind::Ring) => 10,
        (FingerKind::Ring, FingerKind::Middle) | (FingerKind::Middle, FingerKind::Ring) => 9,
        (FingerKind::Ring, FingerKind::Index) | (FingerKind::Index, FingerKind::Ring) => 5,
        (FingerKind::Ring, FingerKind::Thumb) | (FingerKind::Thumb, FingerKind::Ring) => 1,
        (FingerKind::Middle, FingerKind::Middle) => 10,
        (FingerKind::Middle, FingerKind::Index) | (FingerKind::Index, FingerKind::Middle) => 7,
        (FingerKind::Middle, FingerKind::Thumb) | (FingerKind::Thumb, FingerKind::Middle) => 1,
        (FingerKind::Index, FingerKind::Index) => 10,
        (FingerKind::Index, FingerKind::Thumb) | (FingerKind::Thumb, FingerKind::Index) => 2,
        (FingerKind::Thumb, FingerKind::Thumb) => 10,
    };
    let qs = scaled_distance + DIST_UNIT;
    let dw = 10 - w;
    proof {
        assert((dw as int) * (qs as int) <= 834_147_000int) by (nonlinear_arith)
            requires
                dw <= 9u64,
                qs <= 92_683_000u64,
        ;
    }
    let inner = dw * qs + w * DIST_UNIT;
    let sc = SCALE * syn;
    proof {
        assert((sc as int) * (inner as int) <= 7_507_413_090_000_000int) by (nonlinear_arith)
            requires
                sc <= 9_000_000u64,
                inner <= 834_157_000u64,
        ;
    }
    let num = sc * inner;
    let den = 100 * qs;
    proof {
        assert(num as int == (SCALE as int) * (syn as int) * ((10 - w as int) * (qs as int) + (
        w as int) * (DIST_UNIT as int))) by (nonlinear_arith)
            requires
                num == sc * inner,
                sc == SCALE * syn,
                inner == dw * qs + w * DIST_UNIT,
                dw == 10 - w,
                w <= 10u64,
                syn <= 9u64,
                qs <= 92_683_000u64,
                num <= 7_507_413_090_000_000u64,
                sc == 1_000_000u64 * syn,
        ;
    }
    num / den
}

/// A covered finger's table entry is a percentage.
pub proof fn lemma_finger_score_from_bound(table: Seq<FingerConfig>, i: int, f: Finger)
    requires
        forall|k: int| 0 <= k < table.len() ==> (#[trigger] table[k]).wf(),
        finger_score_from(table, i, f) is Some,
    ensures
        0 <= finger_score_from(table, i, f)->Some_0 <= 100,
    decreases table.len() - i,
{
    if 0 <= i < table.len() && table[i].finger != f {
        lemma_finger_score_from_bound(table, i + 1, f);
    }
}

/// The frequency-weighted reach cost of the keys on slots `i` and beyond:
/// for each slot, the count of its key's unshifted code times the slot's
/// ease percentage times its finger's dexterity percentage, times 100 to
/// land on the [`SCALE`] fixed point.
pub open spec fn individual_score_from(
    keys: Seq<Key>,
    stats: Stats,
    config: KeymapConfig,
    i: int,
) -> int
    decreases keys.len() - i,
{
    if i < 0 || i >= keys.len() {
        0
    } else {
        stats.individual_count(keys[i].spec_keycode(false)) * config.keys.0@[i].score
            * config.finger_score(config.keys.0@[i].finger)->Some_0 * 100 + individual_score_from(
            keys,
            stats,
            config,
            i + 1,
        )
    }
}

/// The frequency-weighted transition cost of the slot pairs `(i, i+1)` and
/// beyond, in slot enumeration order (deliberately, not geometric
/// neighbours): for each pair, the count of the two keys' consecutive use
/// times the transition cost of the pair, the cost keyed off the first
/// slot's finger for both endpoints.
pub open spec fn bigram_score_from(keys: Seq<Key>, stats: Stats, config: KeymapConfig, i: int) -> int
    decreases keys.len() - i,
{
    if i < 0 || i + 1 >= keys.len() {
        0
    } else {
        stats.consecutive_count(keys[i].spec_keycode(false), keys[i + 1].spec_keycode(false))
            * spec_transition_cost(
            config.keys.0@[i].finger,
            config.keys.0@[i].finger,
            spec_scaled_distance(config.keys.0@[i].position, config.keys.0@[i + 1].position),
        ) + bigram_score_from(keys, stats, config, i + 1)
    }
}

/// The fitness of a layout: reach cost plus transition cost plus one
/// hundred points per satisfied intuition.
pub open spec fn spec_layout_score(
    keys: Seq<Key>,
    stats: Stats,
    config: KeymapConfig,
    intuitions: Seq<Intuition>,
) -> int {
    individual_score_from(keys, stats, config, 0) + bigram_score_from(keys, stats, config, 0)
        + 100 * (SCALE as int) * intuition_count_from(intuitions, keys, config, 0)
}

/// The largest score one slot or slot pair can contribute: the largest
/// count, `u64::MAX`, times one full point.
pub open spec fn term_bound() -> int {
    18446744073709551615000000
}

/// The reach-cost component of the fitness.
pub fn layout_individual_key_score(layout: &Layout, stats: &Stats, config: &KeymapConfig) -> (score:
    u128)
    requires
        config.wf(),
        layout.wf(),
        layout@.len() == config.keys.0@.len(),
    ensures
        score as int == individual_score_from(layout@, *stats, *config, 0),
        score as int <= layout@.len() * term_bound(),
{
    let n = layout.keys.len();
    let mut score: u128 = 0;
    let mut i: usize = 0;
    while i < n
        invariant
            0 <= i <= n,
            n == layout@.len(),
            n == config.keys.0@.len(),
            n <= crate::keyboard::MAX_SLOTS,
            config.wf(),
            layout.wf(),
            score as int <= (i as int) * term_bound(),
            individual_score_from(layout@, *stats, *config, 0) == score as int
                + individual_score_from(layout@, *stats, *config, i as int),
        decreases n - i,
    {
        let count = stats.get_individual_count(layout.keys[i].keycode(false));
        let base = config.keys.0[i].score;
        let finger = config.keys.0[i].finger;
        let fs_opt = config.lookup_finger_score(finger);
        proof {
            lemma_finger_score_from_bound(config.fingers@, 0, finger);
        }
        let fs = fs_opt.unwrap();
        proof {
            assert((count as int) * (base as int) <= 1844674407370955161500int && (count as int)
                * (base as int) * (fs as int) <= 184467440737095516150000int && (count as int) * (
            base as int) * (fs as int) * 100int <= 18446744073709551615000000int)
                by (nonlinear_arith)
                requires
                    count <= 0xFFFF_FFFF_FFFF_FFFFu64,
                    base <= 100u32,
                    fs <= 100u32,
            ;
        }
        let term: u128 = (count as u128) * (base as u128) * (fs as u128) * 100;
        proof {
            assert(term as int <= term_bound());
        }
        score = score + term;
        i = i + 1;
    }
    score
}

/// The transition-cost component of the fitness.
pub fn layout_consecutive_key_score(layout: &Layout, stats: &Stats, config: &KeymapConfig) -> (
    score: u128)
    requires
        config.wf(),
        layout.wf(),
        layout@.len() == config.keys.0@.len(),
    ensures
        score as int == bigram_score_from(layout@, *stats, *config, 0),
        score as int <= layout@.len() * term_bound(),
{
    let n = layout.keys.len();
    let mut score: u128 = 0;
    if n == 0 {
        return score;
    }
    let mut i: usize = 0;
    while i < n - 1
        invariant
            0 <= i <= n - 1,
            n >= 1,
            n == layout@.len(),
            n == config.keys.0@.len(),
            n <= crate::keyboard::MAX_SLOTS,
            config.wf(),
            layout.wf(),
            score as int <= (i as int) * term_bound(),
            bigram_score_from(layout@, *stats, *config, 0) == score as int + bigram_score_from(
                layout@,
                *stats,
                *config,
                i as int,
            ),
        decreases n - 1 - i,
    {
        let code1 = layout.keys[i].keycode(false);
        let code2 = layout.keys[i + 1].keycode(false);
        let count = stats.get_consecutive_count(code1, code2);
        let q = distance(&config.keys.0[i], &config.keys.0[i + 1]);
        let finger = config.keys.0[i].finger;
        let cost = consecutive_finger_score(finger, finger, q);
        proof {
            assert((count as int) * (cost as int) <= 18446744073709551615000000int)
                by (nonlinear_arith)
                requires
                    count <= 0xFFFF_FFFF_FFFF_FFFFu64,
                    cost <= 1_000_000u64,
            ;
        }
        let term: u128 = (count as u128) * (cost as u128);
        proof {
            assert(term as int <= term_bound());
        }
        score = score + term;
        i = i + 1;
    }
    proof {
        assert(bigram_score_from(layout@, *stats, *config, n - 1) == 0);
    }
    score
}

/// The fitness of a layout under the given frequency model, keyboard
/// configuration and intuition set.
pub fn layout_score(
    layout: &Layout,
    stats: &Stats,
    config: &KeymapConfig,
    intuitions: &Vec<Intuition>,
) -> (score: u128)
    requires
        config.wf(),
        layout.wf(),
        layout@.len() == config.keys.0@.len(),
        intuitions_wf(intuitions@, layout@, *config),
        intuitions@.len() <= 0xFFFF_FFFFusize,
    ensures
        score as int == spec_layout_score(layout@, *stats, *config, intuitions@),
        score as int <= 3000000000000000000000000000000int,
{
    let individual = layout_individual_key_score(layout, stats, config);
    let consecutive = layout_consecutive_key_score(layout, stats, config);
    let satisfied = intuition_score(layout, config, intuitions);
    individual + consecutive + 100 * (SCALE as u128) * (satisfied as u128)
}

/// Any two grid positions are at most the largest expressible scaled
/// distance apart.
pub proof fn lemma_scaled_distance_bounds(p1: (u16, u16), p2: (u16, u16))
    ensures
        0 <= spec_scaled_distance(p1, p2) <= MAX_SCALED_DISTANCE,
{
    let dx = p1.0 - p2.0;
    let dy = p1.1 - p2.1;
    assert(0 <= dx * dx + dy * dy <= 8_589_672_450int) by (nonlinear_arith)
        requires
            -65535 <= dx <= 65535,
            -65535 <= dy <= 65535,
    ;
    let v = (DIST_UNIT * DIST_UNIT) as int * (dx * dx + dy * dy);
    assert(0 <= v <= 8_589_672_450_000_000int) by (nonlinear_arith)
        requires
            v == 1_000_000int * (dx * dx + dy * dy),
            0 <= dx * dx + dy * dy <= 8_589_672_450int,
    ;
    lemma_sqrt_floor_bounds(v);
    let q = sqrt_floor(v);
    if q > MAX_SCALED_DISTANCE {
        assert(q * q > 8_589_672_450_000_000int) by (nonlinear_arith)
            requires
                q > 92_682_000int,
        ;
    }
}

/// Helper for the monotonicity law, by induction over the slot pairs from
/// `i` on: a larger count for one pair never lowers the transition score,
/// and strictly raises it when the pair occurs at a pair of adjacent slots
/// not yet passed.
#[verifier::rlimit(60)]
proof fn lemma_bigram_from_monotonic(
    keys: Seq<Key>,
    config: KeymapConfig,
    s1: Stats,
    s2: Stats,
    a: KeyCode,
    b: KeyCode,
    i: int,
)
    requires
        0 <= i,
        keys.len() == config.keys.0@.len(),
        s2.consecutive_count(a, b) > s1.consecutive_count(a, b),
        forall|x: KeyCode, y: KeyCode|
            (x != a || y != b) ==> #[trigger] s2.consecutive_count(x, y) == s1.consecutive_count(
                x,
                y,
            ),
    ensures
        bigram_score_from(keys, s2, config, i) >= bigram_score_from(keys, s1, config, i),
        (exists|j: int|
            i <= j < keys.len() - 1 && (#[trigger] keys[j].spec_keycode(false)) == a && keys[j
                + 1].spec_keycode(false) == b) ==> bigram_score_from(keys, s2, config, i)
            > bigram_score_from(keys, s1, config, i),
    decreases keys.len() - i,
{
    if i + 1 >= keys.len() {
    } else {
        lemma_bigram_from_monotonic(keys, config, s1, s2, a, b, i + 1);
        let q = spec_scaled_distance(config.keys.0@[i].position, config.keys.0@[i + 1].position);
        lemma_scaled_distance_bounds(config.keys.0@[i].position, config.keys.0@[i + 1].position);
        let cost = spec_transition_cost(config.keys.0@[i].finger, config.keys.0@[i].finger, q);
        lemma_transition_cost_bounds(config.keys.0@[i].finger, config.keys.0@[i].finger, q);
        let c1 = s1.consecutive_count(keys[i].spec_keycode(false), keys[i + 1].spec_keycode(false));
        let c2 = s2.consecutive_count(keys[i].spec_keycode(false), keys[i + 1].spec_keycode(false));
        assert(c2 >= c1);
        assert(c2 * cost >= c1 * cost && (c2 > c1 ==> c2 * cost >= c1 * cost + 1))
            by (nonlinear_arith)
            requires
                c2 >= c1,
                cost >= 1,
        ;
        if exists|j: int|
            i <= j < keys.len() - 1 && (#[trigger] keys[j].spec_keycode(false)) == a && keys[j
                + 1].spec_keycode(false) == b {
            let j = choose|j: int|
                i <= j < keys.len() - 1 && (#[trigger] keys[j].spec_keycode(false)) == a && keys[j
                    + 1].spec_keycode(false) == b;
            if j == i {
                assert(c2 > c1);
            } else {
                assert(i + 1 <= j < keys.len() - 1 && (#[trigger] keys[j].spec_keycode(false)) == a
                    && keys[j + 1].spec_keycode(false) == b);
            }
        }
    }
}

/// Law: raising the recorded count of one consecutive key pair that some
/// pair of adjacent slots produces strictly raises the transition score,
/// leaves the reach score untouched, and shifts the fitness by exactly the
/// transition-score difference - the intuition score never reads the
/// frequency model.
pub proof fn lemma_bigram_score_monotonic(
    keys: Seq<Key>,
    config: KeymapConfig,
    s1: Stats,
    s2: Stats,
    a: KeyCode,
    b: KeyCode,
)
    requires
        keys.len() == config.keys.0@.len(),
        s2.consecutive_count(a, b) > s1.consecutive_count(a, b),
        forall|x: KeyCode, y: KeyCode|
            (x != a || y != b) ==> #[trigger] s2.consecutive_count(x, y) == s1.consecutive_count(
                x,
                y,
            ),
        forall|c: KeyCode| #[trigger] s2.individual_count(c) == s1.individual_count(c),
        exists|j: int|
            0 <= j < keys.len() - 1 && (#[trigger] keys[j].spec_keycode(false)) == a && keys[j
                + 1].spec_keycode(false) == b,
    ensures
        bigram_score_from(keys, s2, config, 0) > bigram_score_from(keys, s1, config, 0),
        individual_score_from(keys, s2, config, 0) == individual_score_from(keys, s1, config, 0),
        forall|intuitions: Seq<Intuition>|
            #[trigger] spec_layout_score(keys, s2, config, intuitions) - spec_layout_score(
                keys,
                s1,
                config,
                intuitions,
            ) == bigram_score_from(keys, s2, config, 0) - bigram_score_from(keys, s1, config, 0),
{
    lemma_bigram_from_monotonic(keys, config, s1, s2, a, b, 0);
    lemma_individual_from_same_counts(keys, config, s1, s2, 0);
}

/// The reach score only reads the per-key counts: equal counts, equal
/// score.
proof fn lemma_individual_from_same_counts(
    keys: Seq<Key>,
    config: KeymapConfig,
    s1: Stats,
    s2: Stats,
    i: int,
)
    requires
        forall|c: KeyCode| #[trigger] s2.individual_count(c) == s1.individual_count(c),
    ensures
        individual_score_from(keys, s2, config, i) == individual_score_from(keys, s1, config, i),
    decreases keys.len() - i,
{
    if 0 <= i < keys.len() {
        lemma_individual_from_same_counts(keys, config, s1, s2, i + 1);
    }
}

/// The sum of every recorded per-key count, from entry `i` on.
pub open spec fn sum_individual_counts_from(entries: Seq<(KeyCode, u64)>, i: int) -> int
    decreases entries.len() - i,
{
    if i < 0 || i >= entries.len() {
        0
    } else {
        entries[i].1 + sum_individual_counts_from(entries, i + 1)
    }
}

/// The sum of every recorded pair count, from entry `i` on.
pub open spec fn sum_consecutive_counts_from(entries: Seq<(KeyCode, KeyCode, u64)>, i: int) -> int
    decreases entries.len() - i,
{
    if i < 0 || i >= entries.len() {
        0
    } else {
        entries[i].2 + sum_consecutive_counts_from(entries, i + 1)
    }
}

/// The score an ideal layout could not exceed: every count at full cost
/// plus every intuition satisfied.  Used to normalize annealing deltas,
/// never part of the fitness itself.
pub open spec fn spec_max_possible_score(stats: Stats, intuitions: Seq<Intuition>) -> int {
    (SCALE as int) * (sum_individual_counts_from(stats.individual_entries(), 0)
        + sum_consecutive_counts_from(stats.consecutive_entries(), 0) + 100 * intuitions.len())
}

/// The score an ideal layout could not exceed, for normalizing annealing
/// acceptance probabilities.
pub fn max_possible_score(stats: &Stats, intuitions: &Vec<Intuition>) -> (max: u128)
    requires
        stats.wf(),
        intuitions@.len() <= 0xFFFF_FFFFusize,
    ensures
        max as int == spec_max_possible_score(*stats, intuitions@),
{
    let ind_entries = &stats.individual_key_counts;
    let n1 = ind_entries.len();
    let mut sum: u128 = 0;
    let mut i: usize = 0;
    while i < n1
        invariant
            0 <= i <= n1,
            ind_entries@ == stats.individual_entries(),
            n1 == stats.individual_entries().len(),
            n1 <= crate::stats::MAX_FREQ_ENTRIES,
            sum as int <= (i as int) * 0xFFFF_FFFF_FFFF_FFFF,
            sum_individual_counts_from(stats.individual_entries(), 0) == sum as int
                + sum_individual_counts_from(stats.individual_entries(), i as int),
        decreases n1 - i,
    {
        sum = sum + (ind_entries[i].1 as u128);
        i = i + 1;
    }
    let con_entries = &stats.consecutive_key_counts;
    let n2 = con_entries.len();
    let ghost sum1 = sum as int;
    let mut j: usize = 0;
    while j < n2
        invariant
            0 <= j <= n2,
            con_entries@ == stats.consecutive_entries(),
            n2 == stats.consecutive_entries().len(),
            n2 <= crate::stats::MAX_FREQ_ENTRIES,
            sum1 <= 0x4000_0000int * 0xFFFF_FFFF_FFFF_FFFF,
            sum as int <= sum1 + (j as int) * 0xFFFF_FFFF_FFFF_FFFF,
            sum as int == sum1 + sum_consecutive_counts_from(stats.consecutive_entries(), 0)
                - sum_consecutive_counts_from(stats.consecutive_entries(), j as int),
        decreases n2 - j,
    {
        sum = sum + (con_entries[j].2 as u128);
        j = j + 1;
    }
    let with_ints = sum + 100 * (intuitions.len() as u128);
    proof {
        assert(with_ints as int <= 79228162514264337593543950336int);
        assert((SCALE as int) * (with_ints as int)
            < 340282366920938463463374607431768211456int) by (nonlinear_arith)
            requires
                with_ints as int <= 79228162514264337593543950336int,
                SCALE == 1_000_000u64,
        ;
    }
    SCALE as u128 * with_ints
}

} // verus!
