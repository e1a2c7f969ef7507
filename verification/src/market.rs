//! The market edge detector: what the bookmaker's odds imply once the margin
//! is taken out, and where the forecast beats it.

use crate::ensemble::{even_split, Outlook};
use crate::models::{Edge, MarketOdds, Match, MatchStatus, Prediction};
use crate::select::{is_ranking, rank_indices};
use crate::text::same_text;
use crate::units::{apportion, apportioned, within_one_billionth, ODDS_EVEN};
use vstd::prelude::*;

verus! {

/// A match is reported when its edge exceeds 0.03.
pub const EDGE_THRESHOLD: i64 = 30_000_000;

/// A leg counts when its odds are above 1.0. Odds of 1.0 or less imply
/// nothing: they are the mark of a corrupt feed.
pub open spec fn leg_counts(odds: int) -> bool {
    odds > ODDS_EVEN
}

/// The odds of a leg as a factor in the weights of the other legs: the odds
/// of a leg that counts, and 1 for a leg that does not count or is absent.
pub open spec fn leg_factor(odds: Option<int>) -> int {
    match odds {
        Some(o) => if leg_counts(o) {
            o
        } else {
            1
        },
        None => 1,
    }
}

/// The weight of a leg: the product of the odds of the other legs that
/// count, and zero for a leg that does not count. The weights of the legs
/// that count stand to each other as the inverses of their odds.
pub open spec fn leg_weight(own: Option<int>, other: Option<int>, third: Option<int>) -> int {
    match own {
        Some(o) => if leg_counts(o) {
            leg_factor(other) * leg_factor(third)
        } else {
            0
        },
        None => 0,
    }
}

/// Decimal odds, or the absence of a leg, as numbers of the model.
pub open spec fn odds_value(odds: Option<u32>) -> Option<int> {
    match odds {
        Some(o) => Some(o as int),
        None => None,
    }
}

/// The weight of the home leg of a quote.
pub open spec fn home_weight(home_odds: u32, draw_odds: Option<u32>, away_odds: u32) -> int {
    leg_weight(Some(home_odds as int), odds_value(draw_odds), Some(away_odds as int))
}

/// The weight of the draw leg of a quote, zero where there is none.
pub open spec fn draw_weight(home_odds: u32, draw_odds: Option<u32>, away_odds: u32) -> int {
    leg_weight(odds_value(draw_odds), Some(home_odds as int), Some(away_odds as int))
}

/// The weight of the away leg of a quote.
pub open spec fn away_weight(home_odds: u32, draw_odds: Option<u32>, away_odds: u32) -> int {
    leg_weight(Some(away_odds as int), Some(home_odds as int), odds_value(draw_odds))
}

/// The probabilities that decimal odds imply once the bookmaker's margin is
/// taken out: each leg's share of the sum of the inverse odds, rounded to
/// billionths so that the legs sum to one and each lies within one
/// billionth of its share (`apportioned`). Where no leg counts, the legs
/// are even.
pub open spec fn devigged(home_odds: u32, draw_odds: Option<u32>, away_odds: u32) -> Outlook {
    let wh = home_weight(home_odds, draw_odds, away_odds);
    let wd = draw_weight(home_odds, draw_odds, away_odds);
    let wa = away_weight(home_odds, draw_odds, away_odds);
    if wh + wd + wa <= 0 {
        even_split(draw_odds is Some)
    } else {
        Outlook {
            home: apportioned(wh, wd, wa, 0) as u32,
            away: apportioned(wh, wd, wa, 2) as u32,
            draw: if draw_odds is Some {
                Some(apportioned(wh, wd, wa, 1) as u32)
            } else {
                None
            },
        }
    }
}

/// Each leg of `o` lies within one billionth of the exact share of its
/// weight in the weights of the quote, wherever a leg of the quote counts.
pub open spec fn is_true_to_quote(
    o: Outlook,
    home_odds: u32,
    draw_odds: Option<u32>,
    away_odds: u32,
) -> bool {
    let wh = home_weight(home_odds, draw_odds, away_odds);
    let wd = draw_weight(home_odds, draw_odds, away_odds);
    let wa = away_weight(home_odds, draw_odds, away_odds);
    let total = wh + wd + wa;
    total > 0 ==> {
        &&& within_one_billionth(o.home as int, wh, total)
        &&& within_one_billionth(o.away as int, wa, total)
        &&& within_one_billionth(o.draw_or_zero(), wd, total)
    }
}

/// The weights of two legs that count stand to each other as the inverses
/// of their odds: weight times odds is the same for both. So the devigged
/// probability of a leg is its inverse odds over the sum of the inverse odds.
pub proof fn lemma_weights_are_inverse_odds(home_odds: u32, draw_odds: Option<u32>, away_odds: u32)
    ensures
        ({
            let h = Some(home_odds as int);
            let d = odds_value(draw_odds);
            let a = Some(away_odds as int);
            &&& leg_counts(home_odds as int) && leg_counts(away_odds as int) ==> leg_weight(h, d, a)
                * home_odds == leg_weight(a, h, d) * away_odds
            &&& draw_odds is Some && leg_counts(home_odds as int) && leg_counts(draw_odds->0 as int)
                ==> leg_weight(h, d, a) * home_odds == leg_weight(d, h, a) * draw_odds->0
            &&& draw_odds is Some && leg_counts(away_odds as int) && leg_counts(draw_odds->0 as int)
                ==> leg_weight(a, h, d) * away_odds == leg_weight(d, h, a) * draw_odds->0
        }),
{
    let h = home_odds as int;
    let a = away_odds as int;
    let fd = leg_factor(odds_value(draw_odds));
    assert((fd * a) * h == (h * fd) * a) by (nonlinear_arith);
    if draw_odds is Some {
        let d = draw_odds->0 as int;
        let fa = leg_factor(Some(a));
        let fh = leg_factor(Some(h));
        assert((d * fa) * h == (h * fa) * d) by (nonlinear_arith);
        assert((fh * d) * a == (fh * a) * d) by (nonlinear_arith);
    }
}

/// The odds of a leg as a factor, computed.
fn factor(odds: Option<u32>) -> (f: u128)
    ensures
        f == leg_factor(odds_value(odds)),
        1 <= f <= 0xFFFF_FFFF,
{
    match odds {
        Some(o) => if o > ODDS_EVEN {
            o as u128
        } else {
            1
        },
        None => 1,
    }
}

/// The weight of a leg, computed.
fn weight(own: Option<u32>, other: Option<u32>, third: Option<u32>) -> (w: u128)
    ensures
        w == leg_weight(odds_value(own), odds_value(other), odds_value(third)),
        w <= 0xFFFF_FFFF * 0xFFFF_FFFF,
{
    let counted: bool = match own {
        Some(o) => o > ODDS_EVEN,
        None => false,
    };
    if counted {
        let f1: u128 = factor(other);
        let f2: u128 = factor(third);
        assert(f1 * f2 <= 0xFFFF_FFFF * 0xFFFF_FFFF) by (nonlinear_arith)
            requires
                0 <= f1 <= 0xFFFF_FFFF,
                0 <= f2 <= 0xFFFF_FFFF,
        ;
        f1 * f2
    } else {
        0
    }
}

/// Takes the bookmaker's margin out of decimal odds, for a market of two
/// legs or of three.
pub fn devig(home_odds: u32, draw_odds: Option<u32>, away_odds: u32) -> (o: Outlook)
    ensures
        o == devigged(home_odds, draw_odds, away_odds),
        o.is_closed(),
        is_true_to_quote(o, home_odds, draw_odds, away_odds),
        o.draw is Some <==> draw_odds is Some,
        !leg_counts(home_odds as int) && (leg_counts(away_odds as int) || (draw_odds is Some
            && leg_counts(draw_odds->0 as int))) ==> o.home == 0,
{
    let wh: u128 = weight(Some(home_odds), draw_odds, Some(away_odds));
    let wd: u128 = weight(draw_odds, Some(home_odds), Some(away_odds));
    let wa: u128 = weight(Some(away_odds), Some(home_odds), draw_odds);
    let total: u128 = wh + wd + wa;
    if total == 0 {
        if draw_odds.is_some() {
            Outlook { home: 333_333_333, away: 333_333_334, draw: Some(333_333_333) }
        } else {
            Outlook { home: 500_000_000, away: 500_000_000, draw: None }
        }
    } else {
        assert(0xFFFF_FFFF * 0xFFFF_FFFF <= 0xFFFF_FFFF_FFFF_FFFF);
        let (home, draw, away) = apportion(wh as u64, wd as u64, wa as u64);
        Outlook {
            home,
            away,
            draw: if draw_odds.is_some() {
                Some(draw)
            } else {
                None
            },
        }
    }
}

/// The larger of two numbers.
pub open spec fn larger(a: int, b: int) -> int {
    if a >= b {
        a
    } else {
        b
    }
}

/// The edge of a forecast over the market: the largest difference, over the
/// outcomes that both price, between the forecast's probability and the
/// market's.
pub open spec fn edge_of(model: Outlook, market: Outlook) -> int {
    let sides = larger(model.home - market.home, model.away - market.away);
    if model.draw is Some && market.draw is Some {
        larger(sides, model.draw->0 - market.draw->0)
    } else {
        sides
    }
}

/// Computes the edge of a forecast over the market, in billionths.
pub fn edge_value(model: Outlook, market: Outlook) -> (e: i64)
    ensures
        e == edge_of(model, market),
{
    let home: i64 = model.home as i64 - market.home as i64;
    let away: i64 = model.away as i64 - market.away as i64;
    let sides: i64 = if home >= away {
        home
    } else {
        away
    };
    match (model.draw, market.draw) {
        (Some(m), Some(k)) => {
            let draw: i64 = m as i64 - k as i64;
            if sides >= draw {
                sides
            } else {
                draw
            }
        },
        _ => sides,
    }
}

/// The forecast of a prediction as an outlook.
pub open spec fn outlook_of(p: Prediction) -> Outlook {
    Outlook {
        home: p.home_win_probability,
        away: p.away_win_probability,
        draw: p.draw_probability,
    }
}

/// The row of the first text that equals `id`, looking from row `from` on.
pub open spec fn first_row(ids: Seq<Seq<char>>, id: Seq<char>, from: int) -> Option<int>
    decreases ids.len() - from,
{
    if from < 0 || from >= ids.len() {
        None
    } else if ids[from] == id {
        Some(from)
    } else {
        first_row(ids, id, from + 1)
    }
}

/// The match that each prediction is for.
pub open spec fn predicted_ids(predictions: Seq<Prediction>) -> Seq<Seq<char>> {
    Seq::new(predictions.len(), |i: int| predictions[i].match_id@)
}

/// The match that each quote is for.
pub open spec fn quoted_ids(quotes: Seq<MarketOdds>) -> Seq<Seq<char>> {
    Seq::new(quotes.len(), |i: int| quotes[i].match_id@)
}

/// Finds the prediction of a match.
pub fn find_prediction(predictions: &Vec<Prediction>, match_id: &str) -> (row: Option<usize>)
    ensures
        match row {
            Some(r) => first_row(predicted_ids(predictions@), match_id@, 0) == Some(r as int) && r
                < predictions@.len(),
            None => first_row(predicted_ids(predictions@), match_id@, 0) is None,
        },
{
    let n: usize = predictions.len();
    let mut i: usize = 0;
    while i < n
        invariant
            n == predictions@.len(),
            i <= n,
            first_row(predicted_ids(predictions@), match_id@, 0) == first_row(
                predicted_ids(predictions@),
                match_id@,
                i as int,
            ),
        decreases n - i,
    {
        if same_text(predictions[i].match_id.as_str(), match_id) {
            return Some(i);
        }
        i = i + 1;
    }
    None
}

/// Finds the quote of a match.
pub fn find_quote(quotes: &Vec<MarketOdds>, match_id: &str) -> (row: Option<usize>)
    ensures
        match row {
            Some(r) => first_row(quoted_ids(quotes@), match_id@, 0) == Some(r as int) && r
                < quotes@.len(),
            None => first_row(quoted_ids(quotes@), match_id@, 0) is None,
        },
{
    let n: usize = quotes.len();
    let mut i: usize = 0;
    while i < n
        invariant
            n == quotes@.len(),
            i <= n,
            first_row(quoted_ids(quotes@), match_id@, 0) == first_row(
                quoted_ids(quotes@),
                match_id@,
                i as int,
            ),
        decreases n - i,
    {
        if same_text(quotes[i].match_id.as_str(), match_id) {
            return Some(i);
        }
        i = i + 1;
    }
    None
}

/// What the scan finds for one match.
#[derive(Clone, Copy, Debug, PartialEq, Eq, Structural)]
pub struct Finding {
    pub prediction_row: usize,
    pub quote_row: usize,
    /// The edge of the forecast over the devigged quote, in billionths.
    pub edge: i64,
}

/// What the scan finds for a match: its forecast, its quote and the edge
/// between them. A match that is not scheduled, or that lacks a forecast or
/// a quote, is passed over.
pub open spec fn finding_of(
    m: Match,
    predictions: Seq<Prediction>,
    quotes: Seq<MarketOdds>,
) -> Option<Finding> {
    let p = first_row(predicted_ids(predictions), m.id@, 0);
    let q = first_row(quoted_ids(quotes), m.id@, 0);
    if m.status == MatchStatus::Scheduled && p is Some && q is Some {
        let quote = quotes[q->0];
        Some(
            Finding {
                prediction_row: p->0 as usize,
                quote_row: q->0 as usize,
                edge: edge_of(
                    outlook_of(predictions[p->0]),
                    devigged(quote.home_odds, quote.draw_odds, quote.away_odds),
                ) as i64,
            },
        )
    } else {
        None
    }
}

/// Compares the forecast of a match with its quote.
pub fn assess(m: &Match, predictions: &Vec<Prediction>, quotes: &Vec<MarketOdds>) -> (f: Option<
    Finding,
>)
    ensures
        f == finding_of(*m, predictions@, quotes@),
        f is Some ==> (f->0).prediction_row < predictions@.len() && (f->0).quote_row < quotes@.len(),
{
    if !(m.status == MatchStatus::Scheduled) {
        return None;
    }
    let p: Option<usize> = find_prediction(predictions, m.id.as_str());
    let q: Option<usize> = find_quote(quotes, m.id.as_str());
    match (p, q) {
        (Some(p), Some(q)) => {
            let prediction: &Prediction = &predictions[p];
            let quote: &MarketOdds = &quotes[q];
            let model: Outlook = Outlook {
                home: prediction.home_win_probability,
                away: prediction.away_win_probability,
                draw: prediction.draw_probability,
            };
            let market: Outlook = devig(quote.home_odds, quote.draw_odds, quote.away_odds);
            Some(Finding { prediction_row: p, quote_row: q, edge: edge_value(model, market) })
        },
        _ => None,
    }
}

/// The edge found for each match, and zero where nothing was found.
pub open spec fn edges_found(
    upcoming: Seq<Match>,
    predictions: Seq<Prediction>,
    quotes: Seq<MarketOdds>,
) -> Seq<i64> {
    Seq::new(
        upcoming.len(),
        |i: int|
            match finding_of(upcoming[i], predictions, quotes) {
                Some(f) => f.edge,
                None => 0i64,
            },
    )
}

/// For each match, whether it is reported: something was found for it, and
/// the edge exceeds the threshold.
pub open spec fn reportable(
    upcoming: Seq<Match>,
    predictions: Seq<Prediction>,
    quotes: Seq<MarketOdds>,
) -> Seq<bool> {
    Seq::new(
        upcoming.len(),
        |i: int|
            match finding_of(upcoming[i], predictions, quotes) {
                Some(f) => f.edge > EDGE_THRESHOLD,
                None => false,
            },
    )
}

/// `e` reports the match at row `row`.
pub open spec fn is_report(
    e: Edge,
    row: int,
    upcoming: Seq<Match>,
    predictions: Seq<Prediction>,
    quotes: Seq<MarketOdds>,
) -> bool {
    let found = finding_of(upcoming[row], predictions, quotes);
    &&& found is Some
    &&& e.match_index == row
    &&& e.match_id@ == upcoming[row].id@
    &&& e.prediction_index == (found->0).prediction_row
    &&& e.quote_index == (found->0).quote_row
    &&& e.edge_value == (found->0).edge
    &&& e.market_home_odds == quotes[(found->0).quote_row as int].home_odds
    &&& e.market_away_odds == quotes[(found->0).quote_row as int].away_odds
    &&& e.market_draw_odds == quotes[(found->0).quote_row as int].draw_odds
    &&& e.is_live_odds
    &&& e.bookmaker is Some && (e.bookmaker->0)@ == quotes[(found->0).quote_row as int].bookmaker@
    &&& e.odds_fetched_at == Some(quotes[(found->0).quote_row as int].fetched_at)
}

/// `edges` is the outcome of a scan: the matches whose edge exceeds the
/// threshold, the largest edge first, matches with one edge in the order of
/// the list.
pub open spec fn is_scan(
    edges: Seq<Edge>,
    upcoming: Seq<Match>,
    predictions: Seq<Prediction>,
    quotes: Seq<MarketOdds>,
) -> bool {
    exists|rows: Seq<usize>|
        #![trigger is_ranking(edges_found(upcoming, predictions, quotes), reportable(upcoming, predictions, quotes), true, upcoming.len() as int, rows)]
        is_ranking(
            edges_found(upcoming, predictions, quotes),
            reportable(upcoming, predictions, quotes),
            true,
            upcoming.len() as int,
            rows,
        ) && rows.len() == edges.len() && forall|j: int|
            0 <= j < edges.len() ==> is_report(
                #[trigger] edges[j],
                rows[j] as int,
                upcoming,
                predictions,
                quotes,
            )
}

/// A scan reports nothing without a quote: every match it reports is
/// scheduled and has both a forecast and a quote of its own, and its edge
/// exceeds the threshold.
pub proof fn lemma_scan_reports_quoted_matches(
    edges: Seq<Edge>,
    upcoming: Seq<Match>,
    predictions: Seq<Prediction>,
    quotes: Seq<MarketOdds>,
    j: int,
)
    requires
        is_scan(edges, upcoming, predictions, quotes),
        0 <= j < edges.len(),
    ensures
        edges[j].match_index < upcoming.len(),
        upcoming[edges[j].match_index as int].status == MatchStatus::Scheduled,
        first_row(quoted_ids(quotes), edges[j].match_id@, 0) is Some,
        first_row(predicted_ids(predictions), edges[j].match_id@, 0) is Some,
        edges[j].edge_value > EDGE_THRESHOLD,
{
    let rows = choose|rows: Seq<usize>|
        #![trigger is_ranking(edges_found(upcoming, predictions, quotes), reportable(upcoming, predictions, quotes), true, upcoming.len() as int, rows)]
        is_ranking(
            edges_found(upcoming, predictions, quotes),
            reportable(upcoming, predictions, quotes),
            true,
            upcoming.len() as int,
            rows,
        ) && rows.len() == edges.len() && forall|j: int|
            0 <= j < edges.len() ==> is_report(
                #[trigger] edges[j],
                rows[j] as int,
                upcoming,
                predictions,
                quotes,
            );
    assert(is_report(edges[j], rows[j] as int, upcoming, predictions, quotes));
    assert(rows[j] < upcoming.len());
    assert(reportable(upcoming, predictions, quotes)[rows[j] as int]);
}

/// Scans the upcoming matches for edges: each scheduled match that has a
/// forecast and a quote is compared with its devigged quote, and those that
/// beat it by more than the threshold are reported, the largest edge first.
/// A match without a quote is never reported.
pub fn find_market_edges(
    upcoming: &Vec<Match>,
    predictions: &Vec<Prediction>,
    quotes: &Vec<MarketOdds>,
) -> (edges: Vec<Edge>)
    ensures
        is_scan(edges@, upcoming@, predictions@, quotes@),
        forall|j: int|
            0 <= j < edges@.len() ==> (#[trigger] edges@[j]).edge_value > EDGE_THRESHOLD,
        forall|j: int, k: int|
            0 <= j < k < edges@.len() ==> (#[trigger] edges@[j]).edge_value >= (
            #[trigger] edges@[k]).edge_value,
{
    let n: usize = upcoming.len();
    let mut found: Vec<Option<Finding>> = Vec::new();
    let mut keys: Vec<i64> = Vec::new();
    let mut keep: Vec<bool> = Vec::new();
    let mut i: usize = 0;
    while i < n
        invariant
            n == upcoming@.len(),
            i <= n,
            found@.len() == i,
            keys@.len() == i,
            keep@.len() == i,
            forall|j: int|
                0 <= j < i ==> #[trigger] found@[j] == finding_of(upcoming@[j], predictions@, quotes@),
            forall|j: int|
                0 <= j < i ==> #[trigger] keys@[j] == edges_found(upcoming@, predictions@, quotes@)[j],
            forall|j: int|
                0 <= j < i ==> #[trigger] keep@[j] == reportable(upcoming@, predictions@, quotes@)[j],
            forall|j: int|
                0 <= j < i && found@[j] is Some ==> (#[trigger] found@[j]->0).prediction_row
                    < predictions@.len() && (found@[j]->0).quote_row < quotes@.len(),
        decreases n - i,
    {
        let f: Option<Finding> = assess(&upcoming[i], predictions, quotes);
        match f {
            Some(finding) => {
                keys.push(finding.edge);
                keep.push(finding.edge > EDGE_THRESHOLD);
            },
            None => {
                keys.push(0);
                keep.push(false);
            },
        }
        found.push(f);
        i = i + 1;
    }
    assert(keys@ =~= edges_found(upcoming@, predictions@, quotes@));
    assert(keep@ =~= reportable(upcoming@, predictions@, quotes@));
    let rows: Vec<usize> = rank_indices(&keys, &keep, true, n);
    let mut edges: Vec<Edge> = Vec::new();
    let count: usize = rows.len();
    let mut j: usize = 0;
    while j < count
        invariant
            n == upcoming@.len(),
            count == rows@.len(),
            j <= count,
            found@.len() == n,
            keys@ == edges_found(upcoming@, predictions@, quotes@),
            keep@ == reportable(upcoming@, predictions@, quotes@),
            is_ranking(keys@, keep@, true, n as int, rows@),
            forall|t: int|
                0 <= t < n ==> #[trigger] found@[t] == finding_of(upcoming@[t], predictions@, quotes@),
            forall|t: int|
                0 <= t < n && found@[t] is Some ==> (#[trigger] found@[t]->0).prediction_row
                    < predictions@.len() && (found@[t]->0).quote_row < quotes@.len(),
            edges@.len() == j,
            forall|t: int|
                0 <= t < j ==> is_report(
                    #[trigger] edges@[t],
                    rows@[t] as int,
                    upcoming@,
                    predictions@,
                    quotes@,
                ),
        decreases count - j,
    {
        let row: usize = rows[j];
        assert(keep@[row as int]);
        match found[row] {
            Some(finding) => {
                let quote: &MarketOdds = &quotes[finding.quote_row];
                edges.push(
                    Edge {
                        match_id: upcoming[row].id.clone(),
                        match_index: row,
                        prediction_index: finding.prediction_row,
                        quote_index: finding.quote_row,
                        market_home_odds: quote.home_odds,
                        market_away_odds: quote.away_odds,
                        market_draw_odds: quote.draw_odds,
                        edge_value: finding.edge,
                        is_live_odds: true,
                        bookmaker: Some(quote.bookmaker.clone()),
                        odds_fetched_at: Some(quote.fetched_at),
                    },
                );
            },
            None => {
                assert(false);
            },
        }
        j = j + 1;
    }
    proof {
        assert forall|t: int| 0 <= t < edges@.len() implies (#[trigger] edges@[t]).edge_value
            > EDGE_THRESHOLD by {
            assert(is_report(edges@[t], rows@[t] as int, upcoming@, predictions@, quotes@));
            assert(keep@[rows@[t] as int]);
        }
        assert forall|t: int, u: int| 0 <= t < u < edges@.len() implies (
        #[trigger] edges@[t]).edge_value >= (#[trigger] edges@[u]).edge_value by {
            assert(is_report(edges@[t], rows@[t] as int, upcoming@, predictions@, quotes@));
            assert(is_report(edges@[u], rows@[u] as int, upcoming@, predictions@, quotes@));
            assert(crate::select::precedes(keys@, true, rows@[t] as int, rows@[u] as int));
        }
    }
    edges
}

} // verus!
