//! The forecast of one match: three sub-models, their weighted combination,
//! the rest-day adjustment and the confidence score.
//!
//! Everything here is arithmetic on billionths. What the two curves give
//! comes in as arguments: `expected_home`, the rating expectation of the
//! home side, and `home_base`, the logistic of the form signal.

use crate::models::Sport;
use crate::units::{
    apportion, apportioned, clamp_prob, clamp_to_prob, floor_sqrt, is_floor_sqrt, isqrt, lemma_floor_sqrt_exists,
    lemma_floor_sqrt_monotonic, lemma_share_bounds, share, share_of, within_one_billionth,
    PROB_ONE,
};
use vstd::prelude::*;

verus! {

/// The draw probability that the rating sub-model assumes: 0.25.
pub const RATING_DRAW: u32 = 250_000_000;

/// The weight of the rating sub-model, in tenths.
pub const RATING_WEIGHT: u64 = 5;

/// The weight of the head-to-head sub-model, in tenths.
pub const HEAD_TO_HEAD_WEIGHT: u64 = 3;

/// The weight of the form sub-model, in tenths.
pub const FORM_WEIGHT: u64 = 2;

/// The shrinkage toward the league baseline is never below 0.30.
pub const SHRINK_MIN: u32 = 300_000_000;

/// The shrinkage toward the league baseline is never above 0.90.
pub const SHRINK_MAX: u32 = 900_000_000;

/// What the form sub-model adds to the form difference for playing at home:
/// 0.30.
pub const FORM_HOME_BONUS: i64 = 300_000_000;

/// The form signal is multiplied by this before it enters the logistic curve.
pub const FORM_SLOPE: i64 = 3;

/// A net rest day moves 0.025 of probability.
pub const REST_DAY_SHIFT: i64 = 25_000_000;

/// The rest adjustment leaves each side at least 0.01.
pub const REST_FLOOR: i64 = 10_000_000;

/// Confidence is never below 0.40.
pub const CONFIDENCE_MIN: u32 = 400_000_000;

/// Confidence is never above 0.95.
pub const CONFIDENCE_MAX: u32 = 950_000_000;

/// The probabilities that a model gives to the outcomes of a match, in
/// billionths. `draw` is absent where the sport has no draws.
#[derive(Clone, Copy, Debug, PartialEq, Eq, Structural)]
pub struct Outlook {
    pub home: u32,
    pub away: u32,
    pub draw: Option<u32>,
}

impl Outlook {
    /// The draw probability, or zero where there is none.
    pub open spec fn draw_or_zero(self) -> int {
        match self.draw {
            Some(d) => d as int,
            None => 0,
        }
    }

    /// The sum of the probabilities.
    pub open spec fn total(self) -> int {
        self.home + self.away + self.draw_or_zero()
    }

    /// The probabilities sum to one.
    pub open spec fn is_closed(self) -> bool {
        self.total() == PROB_ONE
    }

    /// No probability exceeds one.
    pub open spec fn in_range(self) -> bool {
        self.home <= PROB_ONE && self.away <= PROB_ONE && self.draw_or_zero() <= PROB_ONE
    }

    /// The largest of the probabilities.
    pub open spec fn best(self) -> int {
        let two = if self.home >= self.away {
            self.home as int
        } else {
            self.away as int
        };
        if two >= self.draw_or_zero() {
            two
        } else {
            self.draw_or_zero()
        }
    }
}

/// The long-run share of home wins, away wins and draws in a sport: 0.46,
/// 0.27 and 0.27 in football, 0.55 and 0.45 in basketball, even otherwise.
pub open spec fn league_baseline(sport: Sport) -> Outlook {
    match sport {
        Sport::Football => Outlook { home: 460_000_000, away: 270_000_000, draw: Some(270_000_000u32) },
        Sport::Basketball => Outlook { home: 550_000_000, away: 450_000_000, draw: None },
        Sport::Other => Outlook { home: 500_000_000, away: 500_000_000, draw: None },
    }
}

/// Gives the league baseline of a sport.
pub fn league_average_prediction(sport: Sport) -> (o: Outlook)
    ensures
        o == league_baseline(sport),
        o.is_closed(),
        o.draw is Some <==> sport.has_draws(),
{
    match sport {
        Sport::Football => Outlook { home: 460_000_000, away: 270_000_000, draw: Some(270_000_000) },
        Sport::Basketball => Outlook { home: 550_000_000, away: 450_000_000, draw: None },
        Sport::Other => Outlook { home: 500_000_000, away: 500_000_000, draw: None },
    }
}

/// The rating sub-model. Where the sport has draws, a draw gets `RATING_DRAW`
/// and the rest is split between the sides in proportion to the expectation;
/// elsewhere the expectation is the home probability.
pub open spec fn rating_outlook(expected_home: int, sport: Sport) -> Outlook {
    let e = clamp_prob(expected_home);
    if sport.has_draws() {
        let home = (e * 3) / 4;
        Outlook {
            home: home as u32,
            away: (PROB_ONE - RATING_DRAW - home) as u32,
            draw: Some(RATING_DRAW),
        }
    } else {
        Outlook { home: e as u32, away: (PROB_ONE - e) as u32, draw: None }
    }
}

/// Computes the rating sub-model from the expectation of the home side,
/// which has the home advantage in it already. An expectation above one is
/// read as one.
pub fn win_probability(expected_home: u32, sport: Sport) -> (o: Outlook)
    ensures
        o == rating_outlook(expected_home as int, sport),
        o.is_closed(),
        o.draw is Some <==> sport.has_draws(),
{
    let e: u32 = clamp_to_prob(expected_home);
    if sport.draw_capable() {
        let home: u32 = ((e as u64 * 3) / 4) as u32;
        Outlook { home, away: PROB_ONE - RATING_DRAW - home, draw: Some(RATING_DRAW) }
    } else {
        Outlook { home: e, away: PROB_ONE - e, draw: None }
    }
}

/// How much of the league baseline goes into a head-to-head estimate from
/// `n` meetings: `1 - sqrt(n) / 4`, held between `SHRINK_MIN` and
/// `SHRINK_MAX`.
pub open spec fn shrink_factor_of(n: int) -> int {
    let raw = PROB_ONE - floor_sqrt(n * 1_000_000_000_000_000_000) / 4;
    if raw < SHRINK_MIN {
        SHRINK_MIN as int
    } else if raw > SHRINK_MAX {
        SHRINK_MAX as int
    } else {
        raw
    }
}

/// From eight meetings on, the shrinkage stays at its minimum.
proof fn lemma_shrink_saturates(n: int)
    requires
        n >= 8,
    ensures
        shrink_factor_of(n) == SHRINK_MIN,
{
    let x = n * 1_000_000_000_000_000_000;
    lemma_floor_sqrt_exists(x);
    assert(is_floor_sqrt(7_840_000_000_000_000_000, 2_800_000_000)) by {
        assert(2_800_000_000int * 2_800_000_000int == 7_840_000_000_000_000_000int);
        assert(2_800_000_001int * 2_800_000_001int > 7_840_000_000_000_000_000int);
    }
    lemma_floor_sqrt_monotonic(7_840_000_000_000_000_000, x, 2_800_000_000, floor_sqrt(x));
}

/// Computes the shrinkage for `n` meetings.
pub fn shrink_factor(n: u64) -> (f: u32)
    ensures
        f == shrink_factor_of(n as int),
        SHRINK_MIN <= f <= SHRINK_MAX,
{
    if n >= 8 {
        proof {
            lemma_shrink_saturates(n as int);
        }
        return SHRINK_MIN;
    }
    let root: u64 = isqrt(n * 1_000_000_000_000_000_000);
    assert(root <= 2_645_751_312) by {
        if root > 2_645_751_312 {
            assert(root * root >= 2_645_751_313int * 2_645_751_313int) by (nonlinear_arith)
                requires
                    root >= 2_645_751_313,
            ;
        }
    }
    let quarter: u64 = root / 4;
    let raw: u64 = PROB_ONE as u64 - quarter;
    if raw < SHRINK_MIN as u64 {
        SHRINK_MIN
    } else if raw > SHRINK_MAX as u64 {
        SHRINK_MAX
    } else {
        raw as u32
    }
}

/// How the earlier meetings of two teams ended, seen from the side that is
/// at home now.
#[derive(Clone, Copy, Debug, PartialEq, Eq, Structural)]
pub struct Tally {
    pub home_wins: u32,
    pub away_wins: u32,
    pub draws: u32,
}

impl Tally {
    /// The number of meetings counted.
    pub open spec fn meetings(self) -> int {
        self.home_wins + self.away_wins + self.draws
    }
}

/// The empirical rate `count / n` blended with the baseline `base`, the
/// baseline weighing `f` and the rate `1 - f`.
pub open spec fn blend(count: int, n: int, base: int, f: int) -> int {
    (count * PROB_ONE * (PROB_ONE - f) + base * f * n) / (n * PROB_ONE)
}

/// The head-to-head sub-model: the empirical rates of the meetings, shrunk
/// toward the league baseline; without meetings, the baseline itself.
pub open spec fn head_to_head_outlook(tally: Tally, sport: Sport) -> Outlook {
    let n = tally.meetings();
    let base = league_baseline(sport);
    if n == 0 {
        base
    } else {
        let f = shrink_factor_of(n);
        Outlook {
            home: blend(tally.home_wins as int, n, base.home as int, f) as u32,
            away: blend(tally.away_wins as int, n, base.away as int, f) as u32,
            draw: if sport.has_draws() {
                Some(blend(tally.draws as int, n, base.draw_or_zero(), f) as u32)
            } else {
                None
            },
        }
    }
}

/// A blend of a rate and a probability is a probability.
proof fn lemma_blend_in_range(count: int, n: int, base: int, f: int)
    requires
        0 <= count <= n,
        0 < n,
        0 <= base <= PROB_ONE,
        0 <= f <= PROB_ONE,
    ensures
        0 <= blend(count, n, base, f) <= PROB_ONE,
        count * PROB_ONE * (PROB_ONE - f) + base * f * n <= n * PROB_ONE * PROB_ONE,
        0 <= count * PROB_ONE * (PROB_ONE - f),
        0 <= base * f * n,
{
    let one = PROB_ONE as int;
    let a = count * one * (one - f);
    let b = base * f * n;
    assert(0 <= a <= n * one * (one - f)) by (nonlinear_arith)
        requires
            0 <= count <= n,
            0 <= one - f,
            one > 0,
            a == count * one * (one - f),
    ;
    assert(0 <= b <= one * f * n) by (nonlinear_arith)
        requires
            0 <= base <= one,
            0 <= f,
            0 < n,
            b == base * f * n,
    ;
    assert(n * one * (one - f) + one * f * n == n * one * one) by (nonlinear_arith);
    assert((a + b) / (n * one) <= one && 0 <= (a + b) / (n * one)) by (nonlinear_arith)
        requires
            0 <= a + b <= n * one * one,
            n * one > 0,
    ;
}

/// Computes one blend.
fn blend_rate(count: u32, n: u64, base: u32, f: u32) -> (r: u32)
    requires
        count <= n,
        0 < n <= 3 * 0xFFFF_FFFF,
        base <= PROB_ONE,
        f <= PROB_ONE,
    ensures
        r == blend(count as int, n as int, base as int, f as int),
        r <= PROB_ONE,
{
    proof {
        lemma_blend_in_range(count as int, n as int, base as int, f as int);
        assert(n * PROB_ONE * PROB_ONE <= 3 * 0xFFFF_FFFF * 1_000_000_000 * 1_000_000_000)
            by (nonlinear_arith)
            requires
                n <= 3 * 0xFFFF_FFFF,
        ;
        assert(count * PROB_ONE * (PROB_ONE - f) == (count * PROB_ONE) * (PROB_ONE - f))
            by (nonlinear_arith);
        assert(base * f * n == (base * f) * n) by (nonlinear_arith);
        assert(count * PROB_ONE <= 0xFFFF_FFFF * 1_000_000_000) by (nonlinear_arith)
            requires
                count <= 0xFFFF_FFFF,
        ;
        assert(base * f <= 1_000_000_000 * 1_000_000_000) by (nonlinear_arith)
            requires
                base <= 1_000_000_000,
                f <= 1_000_000_000,
        ;
        assert(n * PROB_ONE <= 3 * 0xFFFF_FFFF * 1_000_000_000) by (nonlinear_arith)
            requires
                n <= 3 * 0xFFFF_FFFF,
        ;
    }
    let one: u128 = PROB_ONE as u128;
    let empirical: u128 = (count as u128 * one) * (one - f as u128);
    let prior: u128 = (base as u128 * f as u128) * (n as u128);
    let r: u128 = (empirical + prior) / (n as u128 * one);
    r as u32
}

/// Computes the head-to-head sub-model from a tally of meetings.
pub fn head_to_head_prediction(tally: Tally, sport: Sport) -> (o: Outlook)
    ensures
        o == head_to_head_outlook(tally, sport),
        o.in_range(),
        o.draw is Some <==> sport.has_draws(),
        tally.meetings() == 0 ==> o == league_baseline(sport),
{
    let n: u64 = tally.home_wins as u64 + tally.away_wins as u64 + tally.draws as u64;
    let base: Outlook = league_average_prediction(sport);
    if n == 0 {
        return base;
    }
    let f: u32 = shrink_factor(n);
    let draw: Option<u32> = match base.draw {
        Some(d) => Some(blend_rate(tally.draws, n, d, f)),
        None => None,
    };
    Outlook {
        home: blend_rate(tally.home_wins, n, base.home, f),
        away: blend_rate(tally.away_wins, n, base.away, f),
        draw,
    }
}

/// What enters the logistic curve of the form sub-model: the difference of
/// the two form rates plus the home bonus, times the slope.
pub open spec fn form_logit_of(home_rate: int, away_rate: int) -> int {
    (clamp_prob(home_rate) - clamp_prob(away_rate) + FORM_HOME_BONUS) * FORM_SLOPE
}

/// Computes what enters the logistic curve of the form sub-model. The two
/// rates are in billionths; the result is in billionths too and lies
/// between -2.1 and 3.9.
pub fn form_logit(home_rate: u32, away_rate: u32) -> (x: i64)
    ensures
        x == form_logit_of(home_rate as int, away_rate as int),
        -2_100_000_000 <= x <= 3_900_000_000,
{
    let h: i64 = clamp_to_prob(home_rate) as i64;
    let a: i64 = clamp_to_prob(away_rate) as i64;
    (h - a + FORM_HOME_BONUS) * FORM_SLOPE
}

/// The draw probability of the form sub-model: the closer the home base
/// probability is to one half, the likelier a draw, from 0.10 for a certain
/// result to 0.32 for an even match, and never outside 0.05 to 0.35.
pub open spec fn form_draw_of(base: int) -> int {
    let distance = if base >= 500_000_000 {
        base - 500_000_000
    } else {
        500_000_000 - base
    };
    let competitiveness = PROB_ONE - 2 * distance;
    let raw = 100_000_000 + (22 * competitiveness) / 100;
    if raw < 50_000_000 {
        50_000_000
    } else if raw > 350_000_000 {
        350_000_000
    } else {
        raw
    }
}

/// The form sub-model, from the home base probability that the logistic
/// curve gave. Where the sport has draws, the draw probability is taken off
/// both sides in proportion.
pub open spec fn form_outlook(sport: Sport, home_base: int) -> Outlook {
    let base = clamp_prob(home_base);
    if sport.has_draws() {
        let draw = form_draw_of(base);
        Outlook {
            home: share_of(base, PROB_ONE as int, PROB_ONE - draw) as u32,
            away: share_of(PROB_ONE - base, PROB_ONE as int, PROB_ONE - draw) as u32,
            draw: Some(draw as u32),
        }
    } else {
        Outlook { home: base as u32, away: (PROB_ONE - base) as u32, draw: None }
    }
}

/// Computes the form sub-model from the home base probability. A base
/// above one is read as one.
pub fn form_based_prediction(sport: Sport, home_base: u32) -> (o: Outlook)
    ensures
        o == form_outlook(sport, home_base as int),
        o.in_range(),
        o.total() <= PROB_ONE,
        o.draw is Some <==> sport.has_draws(),
{
    let base: u32 = clamp_to_prob(home_base);
    if sport.draw_capable() {
        let distance: u32 = if base >= 500_000_000 {
            base - 500_000_000
        } else {
            500_000_000 - base
        };
        let competitiveness: u64 = (PROB_ONE - 2 * distance) as u64;
        let raw: u64 = 100_000_000 + (22 * competitiveness) / 100;
        let draw: u64 = if raw < 50_000_000 {
            50_000_000
        } else if raw > 350_000_000 {
            350_000_000
        } else {
            raw
        };
        let rest: u64 = PROB_ONE as u64 - draw;
        proof {
            lemma_share_bounds(base as int, PROB_ONE - base, PROB_ONE as int, rest as int);
        }
        let home: u64 = share(base as u64, PROB_ONE as u64, rest);
        let away: u64 = share((PROB_ONE - base) as u64, PROB_ONE as u64, rest);
        Outlook { home: home as u32, away: away as u32, draw: Some(draw as u32) }
    } else {
        Outlook { home: base, away: PROB_ONE - base, draw: None }
    }
}

/// The weighted sum of one outcome over the three sub-models, in tenths.
pub open spec fn weighted(rating: int, head_to_head: int, form: int) -> int {
    RATING_WEIGHT * rating + HEAD_TO_HEAD_WEIGHT * head_to_head + FORM_WEIGHT * form
}

/// The weighted draw of three sub-models: there is one only where all three
/// have one.
pub open spec fn weighted_draw(rating: Outlook, head_to_head: Outlook, form: Outlook) -> Option<
    int,
> {
    if rating.draw is Some && head_to_head.draw is Some && form.draw is Some {
        Some(weighted(rating.draw->0 as int, head_to_head.draw->0 as int, form.draw->0 as int))
    } else {
        None
    }
}

/// An even split between the outcomes, the odd billionth going to the away
/// side: what `apportioned` makes of equal weights.
pub open spec fn even_split(with_draw: bool) -> Outlook {
    if with_draw {
        Outlook { home: 333_333_333, away: 333_333_334, draw: Some(333_333_333u32) }
    } else {
        Outlook { home: 500_000_000, away: 500_000_000, draw: None }
    }
}

/// The three weighted sums brought to sum one: each outcome gets its share
/// of one, rounded to billionths so that the outcomes sum to one and each
/// lies within one billionth of its share (`apportioned`). Sums that are
/// all zero give an even split.
pub open spec fn normalized(home: int, away: int, draw: Option<int>) -> Outlook {
    let d = match draw {
        Some(d) => d,
        None => 0,
    };
    if home + away + d <= 0 {
        even_split(draw is Some)
    } else {
        Outlook {
            home: apportioned(home, d, away, 0) as u32,
            away: apportioned(home, d, away, 2) as u32,
            draw: if draw is Some {
                Some(apportioned(home, d, away, 1) as u32)
            } else {
                None
            },
        }
    }
}

/// Each outcome of `o` lies within one billionth of the exact share of its
/// sum in the three sums, wherever a sum is above zero.
pub open spec fn is_true_to_sums(o: Outlook, home: int, away: int, draw: Option<int>) -> bool {
    let d = match draw {
        Some(d) => d,
        None => 0,
    };
    let total = home + away + d;
    total > 0 ==> {
        &&& within_one_billionth(o.home as int, home, total)
        &&& within_one_billionth(o.away as int, away, total)
        &&& within_one_billionth(o.draw_or_zero(), d, total)
    }
}

/// The combination of the three sub-models: per outcome the sum weighted
/// 0.5, 0.3 and 0.2, then brought to sum one.
pub open spec fn combined(rating: Outlook, head_to_head: Outlook, form: Outlook) -> Outlook {
    normalized(
        weighted(rating.home as int, head_to_head.home as int, form.home as int),
        weighted(rating.away as int, head_to_head.away as int, form.away as int),
        weighted_draw(rating, head_to_head, form),
    )
}

/// Brings three sums to sum one.
pub fn normalize(home: u64, away: u64, draw: Option<u64>) -> (o: Outlook)
    ensures
        o == normalized(
            home as int,
            away as int,
            match draw {
                Some(d) => Some(d as int),
                None => None,
            },
        ),
        o.is_closed(),
        is_true_to_sums(
            o,
            home as int,
            away as int,
            match draw {
                Some(d) => Some(d as int),
                None => None,
            },
        ),
        o.draw is Some <==> draw is Some,
{
    let d: u64 = match draw {
        Some(d) => d,
        None => 0,
    };
    if home == 0 && away == 0 && d == 0 {
        if draw.is_some() {
            Outlook { home: 333_333_333, away: 333_333_334, draw: Some(333_333_333) }
        } else {
            Outlook { home: 500_000_000, away: 500_000_000, draw: None }
        }
    } else {
        let (h, dr, a) = apportion(home, d, away);
        Outlook {
            home: h,
            away: a,
            draw: if draw.is_some() {
                Some(dr)
            } else {
                None
            },
        }
    }
}

/// Combines the three sub-models.
pub fn combine(rating: Outlook, head_to_head: Outlook, form: Outlook) -> (o: Outlook)
    ensures
        o == combined(rating, head_to_head, form),
        o.is_closed(),
        o.draw is Some <==> (rating.draw is Some && head_to_head.draw is Some && form.draw is Some),
{
    let home: u64 = RATING_WEIGHT * rating.home as u64 + HEAD_TO_HEAD_WEIGHT
        * head_to_head.home as u64 + FORM_WEIGHT * form.home as u64;
    let away: u64 = RATING_WEIGHT * rating.away as u64 + HEAD_TO_HEAD_WEIGHT
        * head_to_head.away as u64 + FORM_WEIGHT * form.away as u64;
    let draw: Option<u64> = match (rating.draw, head_to_head.draw, form.draw) {
        (Some(r), Some(h), Some(f)) => Some(
            RATING_WEIGHT * r as u64 + HEAD_TO_HEAD_WEIGHT * h as u64 + FORM_WEIGHT * f as u64,
        ),
        _ => None,
    };
    normalize(home, away, draw)
}

/// The net rest of the home side over the away side in days, each side's
/// rest taken as 3 where it is not known, held between -3 and 3.
pub open spec fn net_rest_of(home_rest: Option<u32>, away_rest: Option<u32>) -> int {
    let h = match home_rest {
        Some(d) => d as int,
        None => 3,
    };
    let a = match away_rest {
        Some(d) => d as int,
        None => 3,
    };
    if h - a < -3 {
        -3
    } else if h - a > 3 {
        3
    } else {
        h - a
    }
}

/// Computes the net rest of the home side over the away side.
pub fn net_rest_days(home_rest: Option<u32>, away_rest: Option<u32>) -> (net: i64)
    ensures
        net == net_rest_of(home_rest, away_rest),
        -3 <= net <= 3,
{
    let h: i64 = match home_rest {
        Some(d) => d as i64,
        None => 3,
    };
    let a: i64 = match away_rest {
        Some(d) => d as i64,
        None => 3,
    };
    let net: i64 = h - a;
    if net < -3 {
        -3
    } else if net > 3 {
        3
    } else {
        net
    }
}

/// `value`, but no less than the floor of the rest adjustment.
pub open spec fn rest_floored(value: int) -> int {
    if value < REST_FLOOR {
        REST_FLOOR as int
    } else {
        value
    }
}

/// The rest-day adjustment. In a sport without draws, each net rest day
/// moves `REST_DAY_SHIFT` from the away side to the home side; neither
/// side goes below `REST_FLOOR`, and the two are brought to sum one again.
/// A sport with draws, and a net rest of zero, leave the outlook as it is.
/// A net rest beyond three days counts as three.
pub open spec fn rest_adjusted(o: Outlook, sport: Sport, net_rest: int) -> Outlook {
    let net = if net_rest < -3 {
        -3
    } else if net_rest > 3 {
        3
    } else {
        net_rest
    };
    if sport.has_draws() || net == 0 || o.draw is Some {
        o
    } else {
        let home = rest_floored(o.home + net * REST_DAY_SHIFT);
        let away = rest_floored(o.away - net * REST_DAY_SHIFT);
        Outlook {
            home: apportioned(home, 0, away, 0) as u32,
            away: apportioned(home, 0, away, 2) as u32,
            draw: None,
        }
    }
}

/// Applies the rest-day adjustment.
pub fn adjust_for_rest(o: Outlook, sport: Sport, net_rest: i64) -> (r: Outlook)
    ensures
        r == rest_adjusted(o, sport, net_rest as int),
        o.is_closed() ==> r.is_closed(),
        r.draw == o.draw,
{
    let net: i64 = if net_rest < -3 {
        -3
    } else if net_rest > 3 {
        3
    } else {
        net_rest
    };
    if sport.draw_capable() || net == 0 || o.draw.is_some() {
        return o;
    }
    let shift: i64 = net * REST_DAY_SHIFT;
    let raw_home: i64 = o.home as i64 + shift;
    let raw_away: i64 = o.away as i64 - shift;
    let home: u64 = if raw_home < REST_FLOOR {
        REST_FLOOR as u64
    } else {
        raw_home as u64
    };
    let away: u64 = if raw_away < REST_FLOOR {
        REST_FLOOR as u64
    } else {
        raw_away as u64
    };
    let (h, _, a) = apportion(home, 0, away);
    Outlook { home: h, away: a, draw: None }
}

/// How decided the forecast is: `(best - 0.5) * 2.5`, held between 0 and 1.
pub open spec fn strength_of(best: int) -> int {
    clamp_prob(((best - 500_000_000) * 5) / 2)
}

/// The sum of the squares of the three differences between three
/// probabilities: nine times their variance.
pub open spec fn spread_squares(a: int, b: int, c: int) -> int {
    (a - b) * (a - b) + (b - c) * (b - c) + (c - a) * (c - a)
}

/// The standard deviation of three probabilities, each held to the range
/// of a probability: a third of the square root of `spread_squares`, both
/// the root and the third rounded down.
pub open spec fn deviation_of(a: int, b: int, c: int) -> int {
    floor_sqrt(spread_squares(clamp_prob(a), clamp_prob(b), clamp_prob(c))) / 3
}

/// How well the sub-models agree on the home side: `1 - deviation / 0.15`,
/// held between 0 and 1.
pub open spec fn agreement_of(a: int, b: int, c: int) -> int {
    PROB_ONE - clamp_prob((deviation_of(a, b, c) * 20) / 3)
}

/// The confidence score: `0.40 + 0.35 * strength + 0.25 * agreement`, held
/// between `CONFIDENCE_MIN` and `CONFIDENCE_MAX`.
pub open spec fn confidence_of(
    best: int,
    rating_home: int,
    head_to_head_home: int,
    form_home: int,
) -> int {
    let raw = 400_000_000 + (35 * strength_of(best) + 25 * agreement_of(
        rating_home,
        head_to_head_home,
        form_home,
    )) / 100;
    if raw < CONFIDENCE_MIN {
        CONFIDENCE_MIN as int
    } else if raw > CONFIDENCE_MAX {
        CONFIDENCE_MAX as int
    } else {
        raw
    }
}

/// The square of the distance between two probabilities.
fn square_gap(a: u32, b: u32) -> (s: u64)
    requires
        a <= PROB_ONE,
        b <= PROB_ONE,
    ensures
        s == (a - b) * (a - b),
        s <= 1_000_000_000_000_000_000,
{
    let gap: u64 = if a >= b {
        (a - b) as u64
    } else {
        (b - a) as u64
    };
    assert(gap * gap == (a - b) * (a - b)) by (nonlinear_arith)
        requires
            gap == a - b || gap == b - a,
    ;
    assert(gap * gap <= 1_000_000_000_000_000_000) by (nonlinear_arith)
        requires
            0 <= gap <= 1_000_000_000,
    ;
    gap * gap
}

/// The confidence in a forecast that rests on the ratings alone: 0.60, and
/// up to 0.30 more as the gap between the ratings grows to 240 points. The
/// ratings are millionths of a point.
pub open spec fn gap_confidence_of(home_rating: i64, away_rating: i64) -> int {
    let gap = if home_rating >= away_rating {
        home_rating - away_rating
    } else {
        away_rating - home_rating
    };
    let bonus = (gap * 5) / 4;
    600_000_000 + if bonus > 300_000_000 {
        300_000_000
    } else {
        bonus
    }
}

/// Computes the confidence in a forecast that rests on the ratings alone.
pub fn gap_confidence(home_rating: i64, away_rating: i64) -> (c: u32)
    ensures
        c == gap_confidence_of(home_rating, away_rating),
        600_000_000 <= c <= 900_000_000,
{
    let gap: i128 = if home_rating >= away_rating {
        home_rating as i128 - away_rating as i128
    } else {
        away_rating as i128 - home_rating as i128
    };
    let bonus: i128 = (gap * 5) / 4;
    if bonus > 300_000_000 {
        900_000_000
    } else {
        (600_000_000 + bonus) as u32
    }
}

/// Computes the confidence score of a forecast whose largest probability is
/// `best`, from the home probabilities of the three sub-models.
pub fn confidence(best: u32, rating_home: u32, head_to_head_home: u32, form_home: u32) -> (c: u32)
    ensures
        c == confidence_of(
            best as int,
            rating_home as int,
            head_to_head_home as int,
            form_home as int,
        ),
        CONFIDENCE_MIN <= c <= CONFIDENCE_MAX,
{
    let strength: u64 = if best <= 500_000_000 {
        0
    } else {
        let s: u64 = ((best - 500_000_000) as u64 * 5) / 2;
        if s > PROB_ONE as u64 {
            PROB_ONE as u64
        } else {
            s
        }
    };
    let a: u32 = clamp_to_prob(rating_home);
    let b: u32 = clamp_to_prob(head_to_head_home);
    let c: u32 = clamp_to_prob(form_home);
    let squares: u64 = square_gap(a, b) + square_gap(b, c) + square_gap(c, a);
    let root: u64 = isqrt(squares);
    let deviation: u64 = root / 3;
    let ratio: u64 = (deviation * 20) / 3;
    let agreement: u64 = if ratio > PROB_ONE as u64 {
        0
    } else {
        PROB_ONE as u64 - ratio
    };
    let raw: u64 = 400_000_000 + (35 * strength + 25 * agreement) / 100;
    if raw < CONFIDENCE_MIN as u64 {
        CONFIDENCE_MIN
    } else if raw > CONFIDENCE_MAX as u64 {
        CONFIDENCE_MAX
    } else {
        raw as u32
    }
}

} // verus!
