//! Small helpers: validation, ids, form strings, and the conversions between
//! probabilities and odds.

use crate::select::{is_ranking, rank_indices};
use crate::text::{
    hash_text, hashed_text, hex_numeral, hexadecimal, push_char, same_text, trim, trimmed,
};
use crate::units::{lemma_share_bounds, share, share_of, PROB_ONE};
use std::collections::hash_map::DefaultHasher;
use std::hash::Hasher;
use vstd::prelude::*;
use vstd::std_specs::hash::*;
use vstd::string::*;

verus! {

/// A team name may be at most this many bytes long.
pub const MAX_TEAM_NAME_BYTES: usize = 100;

/// How many results a form string shows.
pub const FORM_LENGTH: usize = 5;

/// The odds that stand for an event that has no odds: 1000.0.
pub const NO_ODDS: u64 = 1_000_000;

/// No implied probability is read as more than 0.99.
pub const PROBABILITY_CAP: u32 = 990_000_000;

/// A team name is valid when something is left of it once the white space
/// around it is cut off, and it is not too long.
pub open spec fn is_valid_name(trimmed_name: Seq<char>, byte_length: int) -> bool {
    trimmed_name.len() > 0 && byte_length <= MAX_TEAM_NAME_BYTES
}

/// Judges a team name by what is left of it after trimming and by its
/// length in bytes.
pub fn name_is_valid(trimmed_name: &str, byte_length: usize) -> (b: bool)
    ensures
        b == is_valid_name(trimmed_name@, byte_length as int),
{
    !trimmed_name.is_empty() && byte_length <= MAX_TEAM_NAME_BYTES
}

/// Validates a team name: not blank, and at most `MAX_TEAM_NAME_BYTES`
/// bytes.
pub fn validate_team_name(name: &str) -> (b: bool)
    ensures
        b == is_valid_name(trimmed(name@), name.len() as int),
{
    name_is_valid(trim(name), name.len())
}

/// The leagues that the engine knows.
pub open spec fn is_known_league(league: Seq<char>) -> bool {
    league == "EPL"@ || league == "Champions League"@ || league == "NBA"@ || league
        == "Premier League"@
}

/// Validates a league name.
pub fn validate_league_name(league: &str) -> (b: bool)
    ensures
        b == is_known_league(league@),
{
    same_text(league, "EPL") || same_text(league, "Champions League") || same_text(league, "NBA")
        || same_text(league, "Premier League")
}

/// The hash of a text under a hasher that starts empty.
pub open spec fn text_hash(input: Seq<char>) -> u64 {
    DefaultHasher::spec_finish(hashed_text(Seq::empty(), input))
}

/// Derives an id from a text: the hash of the text, in hexadecimal. The
/// same text always gives the same id.
pub fn simple_hash(input: &str) -> (id: String)
    ensures
        id@ == hex_numeral(text_hash(input@) as nat),
{
    let mut hasher: DefaultHasher = DefaultHasher::new();
    hash_text(&mut hasher, input);
    hexadecimal(hasher.finish())
}

/// The instant of each result of a list.
pub open spec fn result_dates(results: Seq<(char, i64)>) -> Seq<i64> {
    Seq::new(results.len(), |i: int| results[i].1)
}

/// A list of flags that are all set.
pub open spec fn all_kept(n: nat) -> Seq<bool> {
    Seq::new(n, |i: int| true)
}

/// `form` is the form string of a list of results: the letters of the
/// most recent results, the most recent first, at most `FORM_LENGTH`.
pub open spec fn is_form_string(form: Seq<char>, results: Seq<(char, i64)>) -> bool {
    exists|picked: Seq<usize>|
        #![trigger is_ranking(result_dates(results), all_kept(results.len()), true, FORM_LENGTH as int, picked)]
        is_ranking(
            result_dates(results),
            all_kept(results.len()),
            true,
            FORM_LENGTH as int,
            picked,
        ) && form.len() == picked.len() && forall|j: int|
            0 <= j < picked.len() ==> #[trigger] form[j] == results[picked[j] as int].0
}

/// Writes the form string of a list of dated results, such as `WLWDW`.
pub fn results_to_form(results: &Vec<(char, i64)>) -> (form: String)
    ensures
        is_form_string(form@, results@),
        form@.len() <= FORM_LENGTH,
{
    let n: usize = results.len();
    let mut dates: Vec<i64> = Vec::new();
    let mut keep: Vec<bool> = Vec::new();
    let mut i: usize = 0;
    while i < n
        invariant
            n == results@.len(),
            i <= n,
            dates@.len() == i,
            keep@.len() == i,
            forall|j: int| 0 <= j < i ==> dates@[j] == results@[j].1,
            forall|j: int| 0 <= j < i ==> keep@[j],
        decreases n - i,
    {
        dates.push(results[i].1);
        keep.push(true);
        i = i + 1;
    }
    assert(dates@ =~= result_dates(results@));
    assert(keep@ =~= all_kept(results@.len()));
    let picked: Vec<usize> = rank_indices(&dates, &keep, true, FORM_LENGTH);
    let mut form: String = String::new();
    let count: usize = picked.len();
    let mut j: usize = 0;
    while j < count
        invariant
            count == picked@.len(),
            j <= count,
            n == results@.len(),
            forall|t: int| 0 <= t < picked@.len() ==> (#[trigger] picked@[t]) < n,
            form@.len() == j,
            forall|t: int| 0 <= t < j ==> #[trigger] form@[t] == results@[picked@[t] as int].0,
        decreases count - j,
    {
        push_char(&mut form, results[picked[j]].0);
        j = j + 1;
    }
    form
}

/// The share of the games that were won, in millionths of a percent: the
/// wins out of all games, drawn and lost ones too. Without games the share
/// is zero.
pub open spec fn win_percentage_of(wins: u32, draws: Option<u32>, losses: u32) -> int {
    let d = match draws {
        Some(d) => d as int,
        None => 0,
    };
    let games = wins + losses + d;
    if games == 0 {
        0
    } else {
        (wins * 100_000_000) / games
    }
}

/// Computes the share of the games that were won, in millionths of a
/// percent.
pub fn calculate_win_percentage(wins: u32, draws: Option<u32>, losses: u32) -> (p: u64)
    ensures
        p == win_percentage_of(wins, draws, losses),
        p <= 100_000_000,
{
    let d: u64 = match draws {
        Some(d) => d as u64,
        None => 0,
    };
    let games: u64 = wins as u64 + losses as u64 + d;
    if games == 0 {
        return 0;
    }
    proof {
        lemma_share_bounds(wins as int, 0, games as int, 100_000_000);
    }
    share(wins as u64, games, 100_000_000)
}

/// The decimal odds of a probability, in thousandths: the inverse of the
/// probability, and `NO_ODDS` for a probability of zero, of one or beyond.
pub open spec fn odds_of(probability: u32) -> int {
    if probability == 0 || probability >= PROB_ONE {
        NO_ODDS as int
    } else {
        1_000_000_000_000int / (probability as int)
    }
}

/// Converts a probability in billionths to decimal odds in thousandths.
pub fn probability_to_odds(probability: u32) -> (odds: u64)
    ensures
        odds == odds_of(probability),
{
    if probability == 0 || probability >= PROB_ONE {
        NO_ODDS
    } else {
        1_000_000_000_000 / (probability as u64)
    }
}

/// The probability that decimal odds imply, in billionths: the inverse of
/// the odds, and no more than `PROBABILITY_CAP`; odds of 1.0 or less imply
/// the cap.
pub open spec fn probability_of(odds: u32) -> int {
    if odds <= 1_000 {
        PROBABILITY_CAP as int
    } else if 1_000_000_000_000int / (odds as int) > PROBABILITY_CAP {
        PROBABILITY_CAP as int
    } else {
        1_000_000_000_000int / (odds as int)
    }
}

/// Converts decimal odds in thousandths to the probability they imply, in
/// billionths.
pub fn odds_to_probability(odds: u32) -> (p: u32)
    ensures
        p == probability_of(odds),
        p <= PROBABILITY_CAP,
{
    if odds <= 1_000 {
        PROBABILITY_CAP
    } else {
        let implied: u64 = 1_000_000_000_000 / (odds as u64);
        if implied > PROBABILITY_CAP as u64 {
            PROBABILITY_CAP
        } else {
            implied as u32
        }
    }
}

/// The sum of the first `n` numbers of a list.
pub open spec fn sum_upto(values: Seq<u32>, n: int) -> int
    decreases n,
{
    if n <= 0 {
        0
    } else {
        sum_upto(values, n - 1) + values[n - 1]
    }
}

/// Every number of a list is at most the sum of the list.
pub proof fn lemma_sum_bounds(values: Seq<u32>, n: int, i: int)
    requires
        0 <= i < n <= values.len(),
    ensures
        values[i] <= sum_upto(values, n),
        0 <= sum_upto(values, n) <= n * 0xFFFF_FFFF,
    decreases n,
{
    if n > 0 {
        lemma_sum_nonneg(values, n - 1);
        if i < n - 1 {
            lemma_sum_bounds(values, n - 1, i);
        }
    }
}

/// A sum of a list lies between zero and its length times the largest
/// number.
pub proof fn lemma_sum_nonneg(values: Seq<u32>, n: int)
    requires
        0 <= n <= values.len(),
    ensures
        0 <= sum_upto(values, n) <= n * 0xFFFF_FFFF,
    decreases n,
{
    if n > 0 {
        lemma_sum_nonneg(values, n - 1);
    }
}

/// `normal` holds the numbers of `probs` as shares of their sum, in
/// billionths, each rounded down; a list that sums to zero stays as it is.
pub open spec fn is_normalized(probs: Seq<u32>, normal: Seq<u32>) -> bool {
    let total = sum_upto(probs, probs.len() as int);
    &&& normal.len() == probs.len()
    &&& forall|i: int|
        0 <= i < probs.len() ==> #[trigger] normal[i] == if total == 0 {
            probs[i] as int
        } else {
            share_of(probs[i] as int, total, PROB_ONE as int)
        }
}

/// Brings a list of probabilities to sum one.
pub fn normalize_probabilities(probs: Vec<u32>) -> (normal: Vec<u32>)
    ensures
        is_normalized(probs@, normal@),
{
    let n: usize = probs.len();
    let mut total: u128 = 0;
    let mut i: usize = 0;
    while i < n
        invariant
            n == probs@.len(),
            i <= n,
            total == sum_upto(probs@, i as int),
            total <= i * 0xFFFF_FFFF,
        decreases n - i,
    {
        assert(i * 0xFFFF_FFFF + 0xFFFF_FFFF <= 0xFFFF_FFFF_FFFF_FFFF * 0x1_0000_0000)
            by (nonlinear_arith)
            requires
                0 <= i < 0xFFFF_FFFF_FFFF_FFFF,
        ;
        total = total + probs[i] as u128;
        i = i + 1;
    }
    if total == 0 {
        return probs;
    }
    let mut normal: Vec<u32> = Vec::new();
    let mut j: usize = 0;
    while j < n
        invariant
            n == probs@.len(),
            j <= n,
            total == sum_upto(probs@, n as int),
            total > 0,
            normal@.len() == j,
            forall|t: int|
                0 <= t < j ==> #[trigger] normal@[t] == share_of(
                    probs@[t] as int,
                    total as int,
                    PROB_ONE as int,
                ),
        decreases n - j,
    {
        proof {
            lemma_sum_bounds(probs@, n as int, j as int);
            lemma_share_bounds(probs@[j as int] as int, 0, total as int, PROB_ONE as int);
        }
        let part: u128 = (probs[j] as u128 * PROB_ONE as u128) / total;
        normal.push(part as u32);
        j = j + 1;
    }
    normal
}

/// The rating points that a result moves: `k * (actual - expected)`, the
/// two scores in billionths and the result in millionths of a point, its
/// size rounded down.
pub open spec fn elo_change_of(expected_score: u32, actual_score: u32, k_factor: u32) -> int {
    if actual_score >= expected_score {
        (k_factor * (actual_score - expected_score)) / 1_000
    } else {
        -((k_factor * (expected_score - actual_score)) / 1_000)
    }
}

/// Computes the rating points that a result moves.
pub fn calculate_elo_change(expected_score: u32, actual_score: u32, k_factor: u32) -> (change: i64)
    ensures
        change == elo_change_of(expected_score, actual_score, k_factor),
{
    let gap: u64 = if actual_score >= expected_score {
        (actual_score - expected_score) as u64
    } else {
        (expected_score - actual_score) as u64
    };
    assert(k_factor * gap <= 0xFFFF_FFFF * 0xFFFF_FFFF) by (nonlinear_arith)
        requires
            0 <= k_factor <= 0xFFFF_FFFF,
            0 <= gap <= 0xFFFF_FFFF,
    ;
    let size: u64 = (k_factor as u64 * gap) / 1_000;
    if actual_score >= expected_score {
        size as i64
    } else {
        -(size as i64)
    }
}

/// No stake is more than a quarter of the bankroll.
pub const KELLY_CAP: u32 = 250_000_000;

/// What is left of a share of the bankroll between nothing and the cap.
pub open spec fn capped_stake(stake: int) -> int {
    if stake < 0 {
        0
    } else if stake > KELLY_CAP {
        KELLY_CAP as int
    } else {
        stake
    }
}

/// The Kelly stake for a bet won with probability `p` (in billionths) at
/// the given decimal odds (in thousandths), as a share of the bankroll in
/// billionths: `p - (1 - p) / (odds - 1)`, rounded up to the next
/// billionth, and held between nothing and the cap. Odds of exactly 1.0
/// pay nothing and earn no stake.
pub open spec fn kelly_stake(win_probability: u32, odds: u32) -> int {
    let p = if win_probability > PROB_ONE {
        PROB_ONE as int
    } else {
        win_probability as int
    };
    let q = PROB_ONE - p;
    if odds == 1_000 {
        0
    } else if odds > 1_000 {
        capped_stake(p - (q * 1_000) / (odds - 1_000))
    } else {
        capped_stake(p + (q * 1_000) / (1_000 - odds))
    }
}

/// Computes the Kelly stake, capped at a quarter of the bankroll.
pub fn kelly_criterion(win_probability: u32, odds: u32) -> (stake: u32)
    ensures
        stake == kelly_stake(win_probability, odds),
        stake <= KELLY_CAP,
{
    let p: i64 = if win_probability > PROB_ONE {
        PROB_ONE as i64
    } else {
        win_probability as i64
    };
    let q: i64 = PROB_ONE as i64 - p;
    let raw: i64 = if odds == 1_000 {
        0
    } else if odds > 1_000 {
        p - (q * 1_000) / (odds as i64 - 1_000)
    } else {
        p + (q * 1_000) / (1_000 - odds as i64)
    };
    if raw < 0 {
        0
    } else if raw > KELLY_CAP as i64 {
        KELLY_CAP
    } else {
        raw as u32
    }
}

/// The sum of the numbers of a list from position `from` up to, but not
/// including, position `to`.
pub open spec fn window_sum(values: Seq<i64>, from: int, to: int) -> int
    decreases to - from,
{
    if to <= from {
        0
    } else {
        window_sum(values, from, to - 1) + values[to - 1]
    }
}

/// `averages` holds the moving averages of a list over a window: for each
/// position that has a full window behind it, the mean of the window that
/// ends there, rounded toward zero. A list shorter than the window stays
/// as it is.
pub open spec fn is_moving_average(values: Seq<i64>, window: int, averages: Seq<i64>) -> bool {
    if values.len() < window {
        averages == values
    } else {
        &&& averages.len() == values.len() - window + 1
        &&& forall|i: int|
            0 <= i < averages.len() ==> #[trigger] averages[i] == mean_toward_zero(
                window_sum(values, i, i + window),
                window,
            )
    }
}

/// `sum / count`, rounded toward zero.
pub open spec fn mean_toward_zero(sum: int, count: int) -> int {
    if sum >= 0 {
        sum / count
    } else {
        -((-sum) / count)
    }
}

/// The sum of a window lies within the window's length times the range of
/// a number.
proof fn lemma_window_sum_bounds(values: Seq<i64>, from: int, to: int)
    requires
        0 <= from <= to <= values.len(),
    ensures
        (to - from) * i64::MIN <= window_sum(values, from, to) <= (to - from) * i64::MAX,
    decreases to - from,
{
    if to > from {
        lemma_window_sum_bounds(values, from, to - 1);
    }
}

/// Computes the moving averages of a list over a window of at least one
/// number.
pub fn moving_average(values: &Vec<i64>, window: usize) -> (averages: Vec<i64>)
    requires
        window > 0,
    ensures
        is_moving_average(values@, window as int, averages@),
{
    let n: usize = values.len();
    let mut averages: Vec<i64> = Vec::new();
    if n < window {
        let mut i: usize = 0;
        while i < n
            invariant
                n == values@.len(),
                i <= n,
                averages@ == values@.subrange(0, i as int),
            decreases n - i,
        {
            averages.push(values[i]);
            assert(averages@ =~= values@.subrange(0, i + 1));
            i = i + 1;
        }
        assert(values@.subrange(0, n as int) =~= values@);
        return averages;
    }
    let mut start: usize = 0;
    while start <= n - window
        invariant
            n == values@.len(),
            0 < window <= n,
            start <= n - window + 1,
            averages@.len() == start,
            forall|i: int|
                0 <= i < start ==> #[trigger] averages@[i] == mean_toward_zero(
                    window_sum(values@, i, i + window),
                    window as int,
                ),
        decreases n + 1 - start,
    {
        let mut sum: i128 = 0;
        let mut j: usize = 0;
        while j < window
            invariant
                n == values@.len(),
                0 < window <= n,
                start + window <= n,
                j <= window,
                sum == window_sum(values@, start as int, start + j),
                j * i64::MIN <= sum <= j * i64::MAX,
            decreases window - j,
        {
            proof {
                lemma_window_sum_bounds(values@, start as int, start + j + 1);
                assert(j * i64::MIN + i64::MIN >= usize::MAX * i64::MIN + i64::MIN) by (nonlinear_arith)
                    requires
                        0 <= j <= usize::MAX,
                ;
                assert(j * i64::MAX + i64::MAX <= usize::MAX * i64::MAX + i64::MAX) by (nonlinear_arith)
                    requires
                        0 <= j <= usize::MAX,
                ;
            }
            sum = sum + values[start + j] as i128;
            j = j + 1;
        }
        let mean: i128 = sum / (window as i128);
        proof {
            lemma_window_sum_bounds(values@, start as int, start + window);
            let w = window as int;
            let s = sum as int;
            if s >= 0 {
                assert(0 <= s / w <= i64::MAX) by (nonlinear_arith)
                    requires
                        0 <= s <= w * i64::MAX,
                        w > 0,
                ;
            } else {
                assert(0 <= (-s) / w <= -i64::MIN) by (nonlinear_arith)
                    requires
                        0 <= -s <= w * (-i64::MIN),
                        w > 0,
                ;
            }
        }
        averages.push(mean as i64);
        start = start + 1;
    }
    averages
}

/// How a match ended.
#[derive(Debug)]
pub struct MatchResult {
    pub home_score: i32,
    pub away_score: i32,
    /// `home`, `away` or `draw`.
    pub winner: String,
}

/// A forecast in short.
#[derive(Clone, Copy, Debug, PartialEq, Eq, Structural)]
pub struct PredictionSummary {
    /// Billionths.
    pub home_win_prob: u32,
    /// Billionths.
    pub away_win_prob: u32,
    /// Billionths.
    pub draw_prob: Option<u32>,
    /// Billionths.
    pub confidence: u32,
}

/// A match, what was forecast for it and how it ended.
#[derive(Debug)]
pub struct MatchSummary {
    pub home_team: String,
    pub away_team: String,
    /// Seconds since the epoch.
    pub date: i64,
    pub our_prediction: Option<PredictionSummary>,
    pub result: Option<MatchResult>,
}

/// The winner that a forecast names: the side with the larger probability
/// if that exceeds the draw probability, else a draw; a draw too where the
/// sides are level.
pub open spec fn predicted_winner(p: PredictionSummary) -> Seq<char> {
    if p.home_win_prob > p.away_win_prob {
        if p.draw_prob is Some && !(p.home_win_prob > p.draw_prob->0) {
            "draw"@
        } else {
            "home"@
        }
    } else if p.away_win_prob > p.home_win_prob {
        if p.draw_prob is Some && !(p.away_win_prob > p.draw_prob->0) {
            "draw"@
        } else {
            "away"@
        }
    } else {
        "draw"@
    }
}

/// The match was forecast and has ended.
pub open spec fn is_judged(s: MatchSummary) -> bool {
    s.our_prediction is Some && s.result is Some
}

/// The match was forecast, has ended, and ended as forecast.
pub open spec fn is_hit(s: MatchSummary) -> bool {
    is_judged(s) && predicted_winner(s.our_prediction->0) == (s.result->0).winner@
}

/// Among the first `n` summaries, how many were forecast and have ended.
pub open spec fn judged_upto(summaries: Seq<MatchSummary>, n: int) -> int
    decreases n,
{
    if n <= 0 {
        0
    } else {
        judged_upto(summaries, n - 1) + if is_judged(summaries[n - 1]) {
            1int
        } else {
            0int
        }
    }
}

/// Among the first `n` summaries, how many ended as forecast.
pub open spec fn hits_upto(summaries: Seq<MatchSummary>, n: int) -> int
    decreases n,
{
    if n <= 0 {
        0
    } else {
        hits_upto(summaries, n - 1) + if is_hit(summaries[n - 1]) {
            1int
        } else {
            0int
        }
    }
}

/// The share of the judged matches that ended as forecast, in billionths,
/// and zero where no match was judged.
pub open spec fn accuracy_of(summaries: Seq<MatchSummary>) -> int {
    let judged = judged_upto(summaries, summaries.len() as int);
    if judged == 0 {
        0
    } else {
        share_of(hits_upto(summaries, summaries.len() as int), judged, PROB_ONE as int)
    }
}

/// Names the winner that a forecast names.
pub fn name_winner(p: &PredictionSummary) -> (w: &'static str)
    ensures
        w@ == predicted_winner(*p),
{
    let draw_beats = |side: u32| -> (b: bool)
        ensures
            b == (p.draw_prob is Some && !(side > p.draw_prob->0)),
        {
            match p.draw_prob {
                Some(d) => !(side > d),
                None => false,
            }
        };
    if p.home_win_prob > p.away_win_prob {
        if draw_beats(p.home_win_prob) {
            "draw"
        } else {
            "home"
        }
    } else if p.away_win_prob > p.home_win_prob {
        if draw_beats(p.away_win_prob) {
            "draw"
        } else {
            "away"
        }
    } else {
        "draw"
    }
}

/// Computes the share of the forecasts that named the winner, in
/// billionths.
pub fn calculate_prediction_accuracy(predictions: &Vec<MatchSummary>) -> (accuracy: u32)
    ensures
        accuracy == accuracy_of(predictions@),
        accuracy <= PROB_ONE,
{
    let n: usize = predictions.len();
    let mut correct: u64 = 0;
    let mut total: u64 = 0;
    let mut i: usize = 0;
    while i < n
        invariant
            n == predictions@.len(),
            i <= n,
            total == judged_upto(predictions@, i as int),
            correct == hits_upto(predictions@, i as int),
            correct <= total <= i,
        decreases n - i,
    {
        let summary: &MatchSummary = &predictions[i];
        match (&summary.our_prediction, &summary.result) {
            (Some(p), Some(r)) => {
                total = total + 1;
                if same_text(name_winner(p), r.winner.as_str()) {
                    correct = correct + 1;
                }
            },
            _ => {},
        }
        i = i + 1;
    }
    if total == 0 {
        0
    } else {
        proof {
            lemma_share_bounds(correct as int, 0, total as int, PROB_ONE as int);
        }
        share(correct, total, PROB_ONE as u64) as u32
    }
}

} // verus!
