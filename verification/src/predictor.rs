//! The prediction engine: from a fixture and the history to a forecast.
//!
//! A forecast is made in two moves. First the engine reads the history and
//! says at which ratings and at which form signal the two curves are to be
//! evaluated (`context_for`). Then, given the values of the curves, it
//! computes the forecast (`forecast`, `predict_match_outcome`).

use crate::ensemble::{
    adjust_for_rest, combine, combined, confidence, confidence_of, form_based_prediction,
    form_logit, form_logit_of, form_outlook, head_to_head_outlook, head_to_head_prediction,
    league_average_prediction, league_baseline, net_rest_days, net_rest_of, rating_outlook,
    rest_adjusted, win_probability, Outlook, Tally, CONFIDENCE_MAX, CONFIDENCE_MIN,
};
use crate::history::{
    days_rest, head_to_head_tally, is_days_rest, is_head_to_head, is_rolling_form, rolling_form,
    RollingForm,
};
use crate::models::{Match, MatchStatus, Prediction, Sport, Team};
use crate::rating::{
    expected_score_of, find_team, pairing_at, team_row, EloCalculator, Pairing,
};
use vstd::prelude::*;
use vstd::string::*;

verus! {

/// Why a match cannot be forecast.
#[derive(Clone, Copy, Debug, PartialEq, Eq, Structural)]
pub enum PredictError {
    /// The home team of the match is not in the table of teams.
    HomeTeamNotFound,
    /// The away team of the match is not in the table of teams.
    AwayTeamNotFound,
}

/// What the history says about a fixture.
#[derive(Clone, Copy, Debug, PartialEq, Eq, Structural)]
pub struct MatchContext {
    /// The row of the home team in the table of teams.
    pub home_row: usize,
    /// The row of the away team in the table of teams.
    pub away_row: usize,
    pub sport: Sport,
    /// The ratings at which the rating expectation is to be evaluated.
    pub pairing: Pairing,
    /// How the earlier meetings of the two teams ended.
    pub head_to_head: Tally,
    /// The form of the home team at home.
    pub home_form: RollingForm,
    /// The form of the away team away.
    pub away_form: RollingForm,
    /// The point at which the logistic curve is to be evaluated, where both
    /// forms rest on enough matches; nothing where the form sub-model falls
    /// back on the league baseline.
    pub form_logit: Option<i64>,
    /// The net rest of the home side, in days; zero where the sport has
    /// draws.
    pub net_rest: i64,
}

/// The form signal of two forms: the point at which the logistic curve is
/// evaluated, and nothing unless both forms rest on enough matches.
pub open spec fn form_signal_of(home_form: RollingForm, away_form: RollingForm) -> Option<i64> {
    if home_form.is_usable() && away_form.is_usable() {
        Some(form_logit_of(home_form.rate_of(), away_form.rate_of()) as i64)
    } else {
        None
    }
}

/// `ctx` is what the history says about the fixture `m`, whose teams stand
/// at `home_row` and `away_row` of the table.
pub open spec fn is_context(ctx: MatchContext, m: Match, teams: Seq<Team>, history: Seq<Match>) -> bool {
    &&& team_row(teams, m.home_team_id@, 0) == Some(ctx.home_row as int)
    &&& team_row(teams, m.away_team_id@, 0) == Some(ctx.away_row as int)
    &&& ctx.sport == m.sport
    &&& ctx.pairing == pairing_at(
        teams[ctx.home_row as int].elo_rating as int,
        teams[ctx.away_row as int].elo_rating as int,
        false,
    )
    &&& is_head_to_head(ctx.head_to_head, history, m.home_team_id@, m.away_team_id@)
    &&& is_rolling_form(ctx.home_form, history, m.home_team_id@, true, m.sport)
    &&& is_rolling_form(ctx.away_form, history, m.away_team_id@, false, m.sport)
    &&& ctx.form_logit == form_signal_of(ctx.home_form, ctx.away_form)
    &&& ctx.home_form.well_formed() && ctx.away_form.well_formed()
    &&& if m.sport.has_draws() {
        ctx.net_rest == 0
    } else {
        exists|home_rest: Option<u32>, away_rest: Option<u32>|
            #![trigger net_rest_of(home_rest, away_rest)]
            is_days_rest(home_rest, history, m.home_team_id@, m.match_date) && is_days_rest(
                away_rest,
                history,
                m.away_team_id@,
                m.match_date,
            ) && ctx.net_rest == net_rest_of(home_rest, away_rest)
    }
}

/// A forecast: the probabilities of the outcomes and the confidence in them.
#[derive(Clone, Copy, Debug, PartialEq, Eq, Structural)]
pub struct Forecast {
    pub outlook: Outlook,
    /// Billionths.
    pub confidence: u32,
}

/// The form sub-model of a fixture: computed from the logistic value where
/// there is a form signal, the league baseline where there is none.
pub open spec fn form_submodel(ctx: MatchContext, home_base: u32) -> Outlook {
    if ctx.form_logit is Some {
        form_outlook(ctx.sport, home_base as int)
    } else {
        league_baseline(ctx.sport)
    }
}

/// The rating expectation of the home side of a fixture, taken from the
/// value of the rating curve at the gap of the fixture's pairing.
pub open spec fn home_expectation(ctx: MatchContext, curve_value: u32) -> int {
    expected_score_of(ctx.pairing.home as int, ctx.pairing.away as int, curve_value as int)
}

/// The forecast of a fixture, given the value of the rating curve at the
/// gap of its pairing and the value of the logistic curve at its form
/// signal.
pub open spec fn forecast_of(ctx: MatchContext, curve_value: u32, home_base: u32) -> Forecast {
    let rating = rating_outlook(home_expectation(ctx, curve_value), ctx.sport);
    let head_to_head = head_to_head_outlook(ctx.head_to_head, ctx.sport);
    let form = form_submodel(ctx, home_base);
    let outlook = rest_adjusted(combined(rating, head_to_head, form), ctx.sport, ctx.net_rest as int);
    Forecast {
        outlook,
        confidence: confidence_of(
            outlook.best(),
            rating.home as int,
            head_to_head.home as int,
            form.home as int,
        ) as u32,
    }
}

/// `p` is the prediction that records a forecast for a match.
pub open spec fn is_prediction(
    p: Prediction,
    m: Match,
    f: Forecast,
    id: Seq<char>,
    created_at: i64,
) -> bool {
    &&& p.id@ == id
    &&& p.match_id@ == m.id@
    &&& p.home_win_probability == f.outlook.home
    &&& p.away_win_probability == f.outlook.away
    &&& p.draw_probability == f.outlook.draw
    &&& p.model_version@ == "ensemble_v2.0"@
    &&& p.confidence_score == f.confidence
    &&& p.created_at == created_at
}

/// A fixture that is due a forecast, and what the history says about it or
/// why it cannot be forecast.
#[derive(Clone, Copy, Debug)]
pub struct PredictionTask {
    /// The row of the fixture in the list of matches.
    pub match_row: usize,
    pub context: Result<MatchContext, PredictError>,
}

/// `r` is the outcome of reading the history for the fixture `m`: its
/// context, or the team that is missing, the home team being looked up
/// first.
pub open spec fn is_context_result(
    r: Result<MatchContext, PredictError>,
    m: Match,
    teams: Seq<Team>,
    history: Seq<Match>,
) -> bool {
    match r {
        Ok(ctx) => is_context(ctx, m, teams, history),
        Err(PredictError::HomeTeamNotFound) => team_row(teams, m.home_team_id@, 0) is None,
        Err(PredictError::AwayTeamNotFound) => team_row(teams, m.home_team_id@, 0) is Some
            && team_row(teams, m.away_team_id@, 0) is None,
    }
}

/// `plan` lists the fixtures that are due a forecast: the scheduled matches,
/// in the order of the list, each with its context.
pub open spec fn is_prediction_plan(
    plan: Seq<PredictionTask>,
    matches: Seq<Match>,
    teams: Seq<Team>,
    history: Seq<Match>,
) -> bool {
    &&& forall|j: int|
        0 <= j < plan.len() ==> (#[trigger] plan[j]).match_row < matches.len()
            && matches[plan[j].match_row as int].status == MatchStatus::Scheduled
            && is_context_result(plan[j].context, matches[plan[j].match_row as int], teams, history)
    &&& forall|j: int, k: int|
        0 <= j < k < plan.len() ==> (#[trigger] plan[j]).match_row < (#[trigger] plan[k]).match_row
    &&& forall|i: int|
        0 <= i < matches.len() && (#[trigger] matches[i]).status == MatchStatus::Scheduled
            ==> exists|j: int| 0 <= j < plan.len() && (#[trigger] plan[j]).match_row == i
}

/// The engine that forecasts matches.
#[derive(Clone, Copy, Debug)]
pub struct PredictionEngine {
    pub elo_calculator: EloCalculator,
}

impl PredictionEngine {
    /// The engine with the standard rating rules.
    pub fn new() -> (e: PredictionEngine)
        ensures
            e.elo_calculator.k_factor == crate::rating::K_FACTOR,
    {
        PredictionEngine { elo_calculator: EloCalculator::new() }
    }

    /// Reads from the table of teams and from the history what a forecast
    /// of the fixture needs. A fixture with a team that is not in the table
    /// cannot be forecast.
    pub fn context_for(&self, m: &Match, teams: &Vec<Team>, history: &Vec<Match>) -> (r: Result<
        MatchContext,
        PredictError,
    >)
        ensures
            is_context_result(r, *m, teams@, history@),
    {
        let home_id: &str = m.home_team_id.as_str();
        let away_id: &str = m.away_team_id.as_str();
        let home_row: usize = match find_team(teams, home_id) {
            Some(row) => row,
            None => {
                return Err(PredictError::HomeTeamNotFound);
            },
        };
        let away_row: usize = match find_team(teams, away_id) {
            Some(row) => row,
            None => {
                return Err(PredictError::AwayTeamNotFound);
            },
        };
        let pairing: Pairing = EloCalculator::pairing(
            teams[home_row].elo_rating,
            teams[away_row].elo_rating,
            false,
        );
        let head_to_head: Tally = head_to_head_tally(history, home_id, away_id);
        let home_form: RollingForm = rolling_form(history, home_id, true, m.sport);
        let away_form: RollingForm = rolling_form(history, away_id, false, m.sport);
        let signal: Option<i64> = if home_form.usable() && away_form.usable() {
            Some(form_logit(home_form.rate(), away_form.rate()))
        } else {
            None
        };
        let net_rest: i64 = if m.sport.draw_capable() {
            0
        } else {
            let home_rest: Option<u32> = days_rest(history, home_id, m.match_date);
            let away_rest: Option<u32> = days_rest(history, away_id, m.match_date);
            net_rest_days(home_rest, away_rest)
        };
        Ok(
            MatchContext {
                home_row,
                away_row,
                sport: m.sport,
                pairing,
                head_to_head,
                home_form,
                away_form,
                form_logit: signal,
                net_rest,
            },
        )
    }

    /// Computes the form sub-model of a fixture. Where either form rests on
    /// too few matches, the result is the league baseline of the sport,
    /// whatever `home_base` is.
    pub fn form_prediction(&self, ctx: &MatchContext, home_base: u32) -> (o: Outlook)
        ensures
            o == form_submodel(*ctx, home_base),
            ctx.form_logit is None ==> o == league_baseline(ctx.sport),
            o.draw is Some <==> ctx.sport.has_draws(),
    {
        match ctx.form_logit {
            Some(_) => form_based_prediction(ctx.sport, home_base),
            None => league_average_prediction(ctx.sport),
        }
    }

    /// Computes the forecast of a fixture from its context and the values
    /// of the two curves: the rating curve at the gap of `ctx.pairing`,
    /// and the logistic curve at `ctx.form_logit` (of no account where
    /// there is no form signal).
    pub fn forecast(&self, ctx: &MatchContext, curve_value: u32, home_base: u32) -> (f: Forecast)
        ensures
            f == forecast_of(*ctx, curve_value, home_base),
            f.outlook.is_closed(),
            f.outlook.draw is Some <==> ctx.sport.has_draws(),
            CONFIDENCE_MIN <= f.confidence <= CONFIDENCE_MAX,
    {
        let expected_home: u32 = EloCalculator::expected_score(
            ctx.pairing.home,
            ctx.pairing.away,
            curve_value,
        );
        let rating: Outlook = win_probability(expected_home, ctx.sport);
        let head_to_head: Outlook = head_to_head_prediction(ctx.head_to_head, ctx.sport);
        let form: Outlook = self.form_prediction(ctx, home_base);
        let outlook: Outlook = adjust_for_rest(
            combine(rating, head_to_head, form),
            ctx.sport,
            ctx.net_rest,
        );
        let sides: u32 = if outlook.home >= outlook.away {
            outlook.home
        } else {
            outlook.away
        };
        let best: u32 = match outlook.draw {
            Some(d) => if sides >= d {
                sides
            } else {
                d
            },
            None => sides,
        };
        Forecast {
            outlook,
            confidence: confidence(best, rating.home, head_to_head.home, form.home),
        }
    }

    /// Forecasts a match and records the forecast under the given id.
    pub fn predict_match_outcome(
        &self,
        m: &Match,
        ctx: &MatchContext,
        curve_value: u32,
        home_base: u32,
        id: String,
        created_at: i64,
    ) -> (p: Prediction)
        ensures
            is_prediction(p, *m, forecast_of(*ctx, curve_value, home_base), id@, created_at),
            p.is_closed(),
            p.draw_probability is Some <==> ctx.sport.has_draws(),
            CONFIDENCE_MIN <= p.confidence_score <= CONFIDENCE_MAX,
    {
        let f: Forecast = self.forecast(ctx, curve_value, home_base);
        Prediction {
            id,
            match_id: m.id.clone(),
            home_win_probability: f.outlook.home,
            away_win_probability: f.outlook.away,
            draw_probability: f.outlook.draw,
            model_version: String::from_str("ensemble_v2.0"),
            confidence_score: f.confidence,
            created_at,
        }
    }

    /// Lists the fixtures that are due a forecast, each with its context. A
    /// match that is not scheduled is left out; a fixture with a missing
    /// team is listed with its error, and the others are not affected.
    pub fn generate_predictions(
        &self,
        matches: &Vec<Match>,
        teams: &Vec<Team>,
        history: &Vec<Match>,
    ) -> (plan: Vec<PredictionTask>)
        ensures
            is_prediction_plan(plan@, matches@, teams@, history@),
    {
        let mut plan: Vec<PredictionTask> = Vec::new();
        let n: usize = matches.len();
        let mut i: usize = 0;
        while i < n
            invariant
                n == matches@.len(),
                i <= n,
                forall|j: int|
                    0 <= j < plan@.len() ==> (#[trigger] plan@[j]).match_row < i
                        && matches@[plan@[j].match_row as int].status == MatchStatus::Scheduled
                        && is_context_result(
                        plan@[j].context,
                        matches@[plan@[j].match_row as int],
                        teams@,
                        history@,
                    ),
                forall|j: int, k: int|
                    0 <= j < k < plan@.len() ==> (#[trigger] plan@[j]).match_row < (
                    #[trigger] plan@[k]).match_row,
                forall|t: int|
                    0 <= t < i && (#[trigger] matches@[t]).status == MatchStatus::Scheduled
                        ==> exists|j: int|
                        0 <= j < plan@.len() && (#[trigger] plan@[j]).match_row == t,
            decreases n - i,
        {
            if matches[i].status == MatchStatus::Scheduled {
                let context: Result<MatchContext, PredictError> = self.context_for(
                    &matches[i],
                    teams,
                    history,
                );
                let ghost before = plan@;
                plan.push(PredictionTask { match_row: i, context });
                proof {
                    assert forall|t: int|
                        0 <= t < i + 1 && (#[trigger] matches@[t]).status
                            == MatchStatus::Scheduled implies exists|j: int|
                        0 <= j < plan@.len() && (#[trigger] plan@[j]).match_row == t by {
                        if t < i {
                            let j = choose|j: int|
                                0 <= j < before.len() && (#[trigger] before[j]).match_row == t;
                            assert(plan@[j].match_row == t);
                        } else {
                            assert(plan@[plan@.len() - 1].match_row == t);
                        }
                    }
                }
            }
            i = i + 1;
        }
        plan
    }
}

impl PredictionEngine {
    /// Scans the upcoming matches for forecasts that beat the market by
    /// more than the threshold, the largest edge first.
    pub fn find_market_edges(
        &self,
        upcoming: &Vec<Match>,
        predictions: &Vec<Prediction>,
        quotes: &Vec<crate::models::MarketOdds>,
    ) -> (edges: Vec<crate::models::Edge>)
        ensures
            crate::market::is_scan(edges@, upcoming@, predictions@, quotes@),
    {
        crate::market::find_market_edges(upcoming, predictions, quotes)
    }
}

/// A forecast from the ratings alone.
#[derive(Clone, Copy, Debug, PartialEq, Eq, Structural)]
pub struct RatingForecast {
    /// The row of the fixture in the list of matches.
    pub match_row: usize,
    pub outlook: Outlook,
}

/// The match at `row` gets a forecast from the ratings: it is scheduled,
/// both of its teams are in the table, and a value of the rating curve was
/// handed in for it.
pub open spec fn is_rated(matches: Seq<Match>, teams: Seq<Team>, curve: Seq<u32>, row: int) -> bool {
    &&& 0 <= row < matches.len()
    &&& row < curve.len()
    &&& matches[row].status == MatchStatus::Scheduled
    &&& team_row(teams, matches[row].home_team_id@, 0) is Some
    &&& team_row(teams, matches[row].away_team_id@, 0) is Some
}

/// The forecast of a match from the ratings of its two teams and the value
/// of the rating curve at the gap of their pairing.
pub open spec fn rating_forecast_of(m: Match, teams: Seq<Team>, curve_value: u32) -> Outlook {
    let home = teams[team_row(teams, m.home_team_id@, 0)->0];
    let away = teams[team_row(teams, m.away_team_id@, 0)->0];
    let pairing = pairing_at(home.elo_rating as int, away.elo_rating as int, false);
    rating_outlook(
        expected_score_of(pairing.home as int, pairing.away as int, curve_value as int),
        m.sport,
    )
}

/// The forecasts from the ratings for the first `n` matches of a list, in
/// the order of the list.
pub open spec fn rating_forecasts_upto(
    matches: Seq<Match>,
    teams: Seq<Team>,
    curve: Seq<u32>,
    n: int,
) -> Seq<RatingForecast>
    decreases n,
{
    if n <= 0 {
        Seq::empty()
    } else {
        let before = rating_forecasts_upto(matches, teams, curve, n - 1);
        if is_rated(matches, teams, curve, n - 1) {
            before.push(
                RatingForecast {
                    match_row: (n - 1) as usize,
                    outlook: rating_forecast_of(matches[n - 1], teams, curve[n - 1]),
                },
            )
        } else {
            before
        }
    }
}

/// What enters the logistic curve of the plain rating model, in
/// billionths: half the rating gap in hundreds of points, less 0.3, plus a
/// fifth of the home rating and a tenth of the away rating, both in
/// thousands of points. The ratings are millionths of a point.
pub open spec fn rating_logit_of(home_rating: i64, away_rating: i64) -> int {
    let tenths = 50 * (home_rating - away_rating) + 2 * home_rating + away_rating;
    (if tenths >= 0 {
        tenths / 10
    } else {
        -((-tenths) / 10)
    }) - 300_000_000
}

impl EloCalculator {
    /// Forecasts the scheduled matches from the ratings alone.
    /// `curve[i]` is the value of the rating curve at the gap of the
    /// pairing of match `i`; a match without one, and a match with a team
    /// that is not in the table, gets no forecast.
    pub fn calculate_predictions_for_matches(
        &self,
        matches: &Vec<Match>,
        teams: &Vec<Team>,
        curve: &Vec<u32>,
    ) -> (forecasts: Vec<RatingForecast>)
        ensures
            forecasts@ == rating_forecasts_upto(matches@, teams@, curve@, matches@.len() as int),
    {
        let mut forecasts: Vec<RatingForecast> = Vec::new();
        let n: usize = matches.len();
        let mut i: usize = 0;
        while i < n
            invariant
                n == matches@.len(),
                i <= n,
                forecasts@ == rating_forecasts_upto(matches@, teams@, curve@, i as int),
            decreases n - i,
        {
            let m: &Match = &matches[i];
            if i < curve.len() && m.status == MatchStatus::Scheduled {
                let home: Option<usize> = find_team(teams, m.home_team_id.as_str());
                let away: Option<usize> = find_team(teams, m.away_team_id.as_str());
                match (home, away) {
                    (Some(h), Some(a)) => {
                        let pairing: Pairing = EloCalculator::pairing(
                            teams[h].elo_rating,
                            teams[a].elo_rating,
                            false,
                        );
                        let expected_home: u32 = EloCalculator::expected_score(
                            pairing.home,
                            pairing.away,
                            curve[i],
                        );
                        forecasts.push(
                            RatingForecast {
                                match_row: i,
                                outlook: win_probability(expected_home, m.sport),
                            },
                        );
                    },
                    _ => {},
                }
            }
            i = i + 1;
        }
        forecasts
    }
}

impl PredictionEngine {
    /// Computes what enters the logistic curve of the plain rating model.
    pub fn logistic_regression_logit(&self, home_rating: i64, away_rating: i64) -> (x: i128)
        ensures
            x == rating_logit_of(home_rating, away_rating),
    {
        let tenths: i128 = 50 * (home_rating as i128 - away_rating as i128) + 2 * home_rating as i128
            + away_rating as i128;
        tenths / 10 - 300_000_000
    }
}

/// Where either team has fewer than three matches in its setting, the form
/// sub-model is the league baseline of the sport and the forecast does not
/// depend on the logistic value handed in.
pub proof fn lemma_form_fallback(
    ctx: MatchContext,
    m: Match,
    teams: Seq<Team>,
    history: Seq<Match>,
    curve_value: u32,
    base_a: u32,
    base_b: u32,
)
    requires
        is_context(ctx, m, teams, history),
        ctx.home_form.sample_size < 3 || ctx.away_form.sample_size < 3,
    ensures
        ctx.form_logit is None,
        form_submodel(ctx, base_a) == league_baseline(ctx.sport),
        forecast_of(ctx, curve_value, base_a) == forecast_of(ctx, curve_value, base_b),
{
}

} // verus!
