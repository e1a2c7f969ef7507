//! Fixed-point units and the integer arithmetic shared by the models.

use vstd::prelude::*;

verus! {

/// The probability 1, in billionths.
pub const PROB_ONE: u32 = 1_000_000_000;

/// One rating point, in millionths.
pub const RATING_POINT: i64 = 1_000_000;

/// The rating from which every team starts a replay: 1200 points.
pub const BASELINE_RATING: i64 = 1_200_000_000;

/// What playing at home is worth: 100 points.
pub const HOME_ADVANTAGE: i64 = 100_000_000;

/// Decimal odds of 1.0 (a sure thing), in thousandths.
pub const ODDS_EVEN: u32 = 1_000;

/// `r` is the integer square root of `x`: the largest integer whose square
/// does not exceed `x`.
pub open spec fn is_floor_sqrt(x: int, r: int) -> bool {
    0 <= r && r * r <= x < (r + 1) * (r + 1)
}

/// The integer square root of `x`.
pub open spec fn floor_sqrt(x: int) -> int {
    choose|r: int| is_floor_sqrt(x, r)
}

/// A number has at most one integer square root.
pub proof fn lemma_floor_sqrt_unique(x: int, r1: int, r2: int)
    requires
        is_floor_sqrt(x, r1),
        is_floor_sqrt(x, r2),
    ensures
        r1 == r2,
{
    if r1 < r2 {
        assert((r1 + 1) * (r1 + 1) <= r2 * r2) by (nonlinear_arith)
            requires
                0 <= r1,
                r1 + 1 <= r2,
        ;
    } else if r2 < r1 {
        assert((r2 + 1) * (r2 + 1) <= r1 * r1) by (nonlinear_arith)
            requires
                0 <= r2,
                r2 + 1 <= r1,
        ;
    }
}

/// Whoever exhibits an integer square root of `x` has found `floor_sqrt(x)`.
pub proof fn lemma_floor_sqrt_is(x: int, r: int)
    requires
        is_floor_sqrt(x, r),
    ensures
        floor_sqrt(x) == r,
{
    lemma_floor_sqrt_unique(x, r, floor_sqrt(x));
}

/// The integer square root grows with its argument.
pub proof fn lemma_floor_sqrt_monotonic(x: int, y: int, rx: int, ry: int)
    requires
        x <= y,
        is_floor_sqrt(x, rx),
        is_floor_sqrt(y, ry),
    ensures
        rx <= ry,
{
    if ry < rx {
        assert((ry + 1) * (ry + 1) <= rx * rx) by (nonlinear_arith)
            requires
                0 <= ry,
                ry + 1 <= rx,
        ;
    }
}

/// Computes the integer square root by bisection.
pub fn isqrt(x: u64) -> (r: u64)
    ensures
        is_floor_sqrt(x as int, r as int),
        r == floor_sqrt(x as int),
        r <= 0xFFFF_FFFF,
{
    let mut lo: u64 = 0;
    let mut hi: u64 = 0x1_0000_0000;
    assert(0x1_0000_0000int * 0x1_0000_0000int > x) by (nonlinear_arith)
        requires
            x <= 0xFFFF_FFFF_FFFF_FFFF,
    ;
    while hi - lo > 1
        invariant
            lo < hi <= 0x1_0000_0000,
            lo * lo <= x < hi * hi,
        decreases hi - lo,
    {
        let mid: u64 = lo + (hi - lo) / 2;
        assert(mid * mid <= 0xFFFF_FFFF_FFFF_FFFF) by (nonlinear_arith)
            requires
                0 <= mid <= 0xFFFF_FFFF,
        ;
        if mid * mid <= x {
            lo = mid;
        } else {
            hi = mid;
        }
    }
    proof {
        lemma_floor_sqrt_is(x as int, lo as int);
    }
    lo
}

/// `value` held to the range of a probability: what is below zero counts as
/// zero, what is above one as one.
pub open spec fn clamp_prob(value: int) -> int {
    if value < 0 {
        0
    } else if value > PROB_ONE as int {
        PROB_ONE as int
    } else {
        value
    }
}

/// Holds a number of billionths to the range of a probability.
pub fn clamp_to_prob(value: u32) -> (p: u32)
    ensures
        p == clamp_prob(value as int),
        p <= PROB_ONE,
{
    if value > PROB_ONE {
        PROB_ONE
    } else {
        value
    }
}

/// Every natural number has an integer square root.
pub proof fn lemma_floor_sqrt_exists(x: int)
    requires
        0 <= x,
    ensures
        is_floor_sqrt(x, floor_sqrt(x)),
    decreases x,
{
    if x == 0 {
        assert(is_floor_sqrt(0, 0));
    } else {
        lemma_floor_sqrt_exists(x - 1);
        let r = floor_sqrt(x - 1);
        if (r + 1) * (r + 1) <= x {
            assert(x < (r + 2) * (r + 2)) by (nonlinear_arith)
                requires
                    0 <= r,
                    x - 1 < (r + 1) * (r + 1),
            ;
            assert(is_floor_sqrt(x, r + 1));
        } else {
            assert(is_floor_sqrt(x, r));
        }
    }
}

/// The share `part / whole` of `amount`, rounded down.
pub open spec fn share_of(part: int, whole: int, amount: int) -> int {
    (part * amount) / whole
}

/// A share of an amount is no more than the amount, and shares of disjoint
/// parts do not add up to more than it.
pub proof fn lemma_share_bounds(part: int, other: int, whole: int, amount: int)
    requires
        0 <= part,
        0 <= other,
        part + other <= whole,
        0 < whole,
        0 <= amount,
    ensures
        0 <= share_of(part, whole, amount) <= amount,
        share_of(part, whole, amount) + share_of(other, whole, amount) <= amount,
        part == whole ==> share_of(part, whole, amount) == amount,
        part > 0 && amount >= whole ==> share_of(part, whole, amount) > 0,
{
    let p = part * amount;
    let o = other * amount;
    assert(0 <= p && 0 <= o && p + o <= whole * amount) by (nonlinear_arith)
        requires
            0 <= part,
            0 <= other,
            part + other <= whole,
            0 <= amount,
            p == part * amount,
            o == other * amount,
    ;
    assert(p / whole + o / whole <= amount && 0 <= p / whole && 0 <= o / whole) by (nonlinear_arith)
        requires
            0 <= p,
            0 <= o,
            p + o <= whole * amount,
            0 < whole,
    ;
    if part == whole {
        assert((whole * amount) / whole == amount) by (nonlinear_arith)
            requires
                0 < whole,
        ;
    }
    if part > 0 && amount >= whole {
        assert(p >= whole) by (nonlinear_arith)
            requires
                part >= 1,
                amount >= whole,
                whole > 0,
                p == part * amount,
        ;
        assert(p / whole > 0) by (nonlinear_arith)
            requires
                p >= whole,
                whole > 0,
        ;
    }
}

/// Computes the share `part / whole` of `amount`, rounded down.
pub(crate) fn share(part: u64, whole: u64, amount: u64) -> (s: u64)
    requires
        part <= whole,
        0 < whole,
    ensures
        s == share_of(part as int, whole as int, amount as int),
        s <= amount,
{
    proof {
        lemma_share_bounds(part as int, 0, whole as int, amount as int);
        assert(part * amount <= 0xFFFF_FFFF_FFFF_FFFF * 0xFFFF_FFFF_FFFF_FFFF) by (nonlinear_arith)
            requires
                0 <= part <= 0xFFFF_FFFF_FFFF_FFFF,
                0 <= amount <= 0xFFFF_FFFF_FFFF_FFFF,
        ;
    }
    let product: u128 = (part as u128) * (amount as u128);
    let s: u128 = product / (whole as u128);
    s as u64
}

/// What is left over when the share `part / whole` of `amount` is rounded
/// down, in units of one `whole`-th.
pub open spec fn share_rest(part: int, whole: int, amount: int) -> int {
    (part * amount) % whole
}

/// The weight of the outcome at `place`: 0 is home, 1 is draw, 2 is away.
pub open spec fn weight_at(home: int, draw: int, away: int, place: int) -> int {
    if place == 0 {
        home
    } else if place == 1 {
        draw
    } else {
        away
    }
}

/// An outcome with the rest `rest_a` at place `place_a` is served before an
/// outcome with the rest `rest_b` at place `place_b`, when billionths that
/// rounding down left over are handed out: the larger rest first, and among
/// equal rests the later place.
pub open spec fn served_before(rest_a: int, place_a: int, rest_b: int, place_b: int) -> bool {
    rest_a > rest_b || (rest_a == rest_b && place_a > place_b)
}

/// One if the outcome at `other` is served before the outcome at `place`,
/// else zero.
pub open spec fn ahead_of(home: int, draw: int, away: int, place: int, other: int) -> int {
    let total = home + draw + away;
    if served_before(
        share_rest(weight_at(home, draw, away, other), total, PROB_ONE as int),
        other,
        share_rest(weight_at(home, draw, away, place), total, PROB_ONE as int),
        place,
    ) {
        1
    } else {
        0
    }
}

/// The billionths that are left over when the shares of the three weights
/// are rounded down.
pub open spec fn left_over(home: int, draw: int, away: int) -> int {
    let total = home + draw + away;
    PROB_ONE - share_of(home, total, PROB_ONE as int) - share_of(draw, total, PROB_ONE as int)
        - share_of(away, total, PROB_ONE as int)
}

/// The probability of the outcome at `place` when one is divided among
/// three outcomes in proportion to their weights: the share of the
/// outcome, rounded down, and one billionth more for the outcomes that are
/// served while billionths are left over. So the three probabilities sum to
/// one and each lies within one billionth of its exact share.
pub open spec fn apportioned(home: int, draw: int, away: int, place: int) -> int {
    let total = home + draw + away;
    let ahead = ahead_of(home, draw, away, place, 0) + ahead_of(home, draw, away, place, 1)
        + ahead_of(home, draw, away, place, 2);
    share_of(weight_at(home, draw, away, place), total, PROB_ONE as int) + if ahead < left_over(
        home,
        draw,
        away,
    ) {
        1int
    } else {
        0int
    }
}

/// `leg` lies within one billionth of the exact share `weight / total`,
/// not reaching the billionth itself.
pub open spec fn within_one_billionth(leg: int, weight: int, total: int) -> bool {
    (leg - 1) * total < weight * PROB_ONE < (leg + 1) * total
}

/// A product split into whole multiples of `whole` and a rest below it.
proof fn lemma_share_and_rest(part: int, whole: int)
    requires
        0 <= part,
        0 < whole,
    ensures
        part * PROB_ONE == share_of(part, whole, PROB_ONE as int) * whole + share_rest(
            part,
            whole,
            PROB_ONE as int,
        ),
        0 <= share_rest(part, whole, PROB_ONE as int) < whole,
        0 <= share_of(part, whole, PROB_ONE as int),
{
    let x = part * PROB_ONE;
    assert(0 <= x) by (nonlinear_arith)
        requires
            0 <= part,
            x == part * 1_000_000_000,
    ;
    assert(x == (x / whole) * whole + x % whole && 0 <= x % whole < whole && 0 <= x / whole)
        by (nonlinear_arith)
        requires
            0 <= x,
            0 < whole,
    ;
}

/// The probabilities that `apportioned` gives to three outcomes sum to
/// one, and each lies within one billionth of the exact share of its
/// outcome. An outcome without weight gets nothing.
pub proof fn lemma_apportioned(home: int, draw: int, away: int)
    requires
        0 <= home,
        0 <= draw,
        0 <= away,
        0 < home + draw + away,
    ensures
        apportioned(home, draw, away, 0) + apportioned(home, draw, away, 1) + apportioned(
            home,
            draw,
            away,
            2,
        ) == PROB_ONE,
        forall|place: int|
            0 <= place <= 2 ==> 0 <= #[trigger] apportioned(home, draw, away, place) <= PROB_ONE,
        forall|place: int|
            0 <= place <= 2 ==> within_one_billionth(
                #[trigger] apportioned(home, draw, away, place),
                weight_at(home, draw, away, place),
                home + draw + away,
            ),
        forall|place: int|
            0 <= place <= 2 && weight_at(home, draw, away, place) == 0 ==> #[trigger] apportioned(
                home,
                draw,
                away,
                place,
            ) == 0,
        0 <= left_over(home, draw, away) <= 2,
{
    let total = home + draw + away;
    let one = PROB_ONE as int;
    lemma_share_and_rest(home, total);
    lemma_share_and_rest(draw, total);
    lemma_share_and_rest(away, total);
    let fh = share_of(home, total, one);
    let fd = share_of(draw, total, one);
    let fa = share_of(away, total, one);
    let rh = share_rest(home, total, one);
    let rd = share_rest(draw, total, one);
    let ra = share_rest(away, total, one);
    let left = left_over(home, draw, away);
    let fht = fh * total;
    let fdt = fd * total;
    let fat = fa * total;
    assert(home * one + draw * one + away * one == total * one) by (nonlinear_arith)
        requires
            total == home + draw + away,
    ;
    assert(left * total == total * one - fht - fdt - fat) by (nonlinear_arith)
        requires
            left == one - fh - fd - fa,
            fht == fh * total,
            fdt == fd * total,
            fat == fa * total,
    ;
    let lt = left * total;
    assert(lt == rh + rd + ra);
    assert(0 <= left <= 2) by (nonlinear_arith)
        requires
            lt == left * total,
            0 <= lt < 3 * total,
            0 < total,
    ;
    assert(left == 0 ==> lt == 0) by (nonlinear_arith)
        requires
            lt == left * total,
    ;
    assert(left == 1 ==> lt == total) by (nonlinear_arith)
        requires
            lt == left * total,
    ;
    assert(left == 2 ==> lt == 2 * total) by (nonlinear_arith)
        requires
            lt == left * total,
    ;
    let eh = apportioned(home, draw, away, 0) - fh;
    let ed = apportioned(home, draw, away, 1) - fd;
    let ea = apportioned(home, draw, away, 2) - fa;
    assert(eh + ed + ea == left);
    assert(eh == 1 ==> rh > 0);
    assert(ed == 1 ==> rd > 0);
    assert(ea == 1 ==> ra > 0);
    assert((fh + 1) * total == fht + total && (fh + 2) * total == fht + 2 * total && (fh - 1)
        * total == fht - total) by (nonlinear_arith)
        requires
            fht == fh * total,
    ;
    assert((fd + 1) * total == fdt + total && (fd + 2) * total == fdt + 2 * total && (fd - 1)
        * total == fdt - total) by (nonlinear_arith)
        requires
            fdt == fd * total,
    ;
    assert((fa + 1) * total == fat + total && (fa + 2) * total == fat + 2 * total && (fa - 1)
        * total == fat - total) by (nonlinear_arith)
        requires
            fat == fa * total,
    ;
    assert(within_one_billionth(apportioned(home, draw, away, 0), home, total));
    assert(within_one_billionth(apportioned(home, draw, away, 1), draw, total));
    assert(within_one_billionth(apportioned(home, draw, away, 2), away, total));
    assert(fh + fd + fa + left == one);
    assert forall|place: int| 0 <= place <= 2 implies within_one_billionth(
        #[trigger] apportioned(home, draw, away, place),
        weight_at(home, draw, away, place),
        total,
    ) by {
        if place == 0 {
        } else if place == 1 {
        } else {
        }
    }
    assert forall|place: int|
        0 <= place <= 2 && weight_at(home, draw, away, place) == 0 implies #[trigger] apportioned(
        home,
        draw,
        away,
        place,
    ) == 0 by {
        assert(0 * one == 0);
        assert(0int / total == 0 && 0int % total == 0) by (nonlinear_arith)
            requires
                0 < total,
        ;
    }
}

/// Divides one among three outcomes in proportion to their weights.
pub(crate) fn apportion(home: u64, draw: u64, away: u64) -> (r: (u32, u32, u32))
    requires
        0 < home + draw + away,
    ensures
        r.0 == apportioned(home as int, draw as int, away as int, 0),
        r.1 == apportioned(home as int, draw as int, away as int, 1),
        r.2 == apportioned(home as int, draw as int, away as int, 2),
        r.0 + r.1 + r.2 == PROB_ONE,
        within_one_billionth(r.0 as int, home as int, home + draw + away),
        within_one_billionth(r.1 as int, draw as int, home + draw + away),
        within_one_billionth(r.2 as int, away as int, home + draw + away),
        home == 0 ==> r.0 == 0,
        draw == 0 ==> r.1 == 0,
        away == 0 ==> r.2 == 0,
{
    proof {
        lemma_apportioned(home as int, draw as int, away as int);
        lemma_share_and_rest(home as int, home + draw + away);
        lemma_share_and_rest(draw as int, home + draw + away);
        lemma_share_and_rest(away as int, home + draw + away);
        assert(home * PROB_ONE <= 0xFFFF_FFFF_FFFF_FFFF * 1_000_000_000) by (nonlinear_arith)
            requires
                0 <= home <= 0xFFFF_FFFF_FFFF_FFFF,
        ;
        assert(draw * PROB_ONE <= 0xFFFF_FFFF_FFFF_FFFF * 1_000_000_000) by (nonlinear_arith)
            requires
                0 <= draw <= 0xFFFF_FFFF_FFFF_FFFF,
        ;
        assert(away * PROB_ONE <= 0xFFFF_FFFF_FFFF_FFFF * 1_000_000_000) by (nonlinear_arith)
            requires
                0 <= away <= 0xFFFF_FFFF_FFFF_FFFF,
        ;
        assert(weight_at(home as int, draw as int, away as int, 0) == home);
        assert(weight_at(home as int, draw as int, away as int, 1) == draw);
        assert(weight_at(home as int, draw as int, away as int, 2) == away);
    }
    let total: u128 = home as u128 + draw as u128 + away as u128;
    let one: u128 = PROB_ONE as u128;
    let xh: u128 = home as u128 * one;
    let xd: u128 = draw as u128 * one;
    let xa: u128 = away as u128 * one;
    let fh: u128 = xh / total;
    let fd: u128 = xd / total;
    let fa: u128 = xa / total;
    let rh: u128 = xh % total;
    let rd: u128 = xd % total;
    let ra: u128 = xa % total;
    let left: u128 = one - fh - fd - fa;
    // how many outcomes are served before each
    let ahead_home: u128 = (if rd >= rh {
        1u128
    } else {
        0u128
    }) + (if ra >= rh {
        1u128
    } else {
        0u128
    });
    let ahead_draw: u128 = (if rh > rd {
        1u128
    } else {
        0u128
    }) + (if ra >= rd {
        1u128
    } else {
        0u128
    });
    let ahead_away: u128 = (if rh > ra {
        1u128
    } else {
        0u128
    }) + (if rd > ra {
        1u128
    } else {
        0u128
    });
    let h: u128 = if ahead_home < left {
        fh + 1
    } else {
        fh
    };
    let d: u128 = if ahead_draw < left {
        fd + 1
    } else {
        fd
    };
    let a: u128 = if ahead_away < left {
        fa + 1
    } else {
        fa
    };
    (h as u32, d as u32, a as u32)
}

} // verus!
