//! The rating engine: how one result moves two ratings, and the replay that
//! rebuilds every rating from the baseline.
//!
//! The rating curve is the one thing the engine cannot compute in integers.
//! The replay therefore runs in turns: it names the two ratings of the next
//! match, the caller answers with the value of the curve at their gap, and
//! the replay applies it. The new ratings exist only inside the replay until
//! it has run to its end.

use crate::ensemble::{rating_outlook, Outlook};
use crate::history::{is_selection, select_matches, FilterView, MatchFilter};
use crate::models::{EloHistoryPoint, Match, MatchStatus, Sport, Team};
use crate::text::same_text;
use crate::units::{clamp_prob, clamp_to_prob, BASELINE_RATING, HOME_ADVANTAGE};
use vstd::prelude::*;

verus! {

/// The most rating points that a match moves before the margin is counted.
pub const K_FACTOR: u32 = 32;

/// No rating goes above a billion points.
pub const RATING_MAX: i64 = 1_000_000_000_000_000;

/// No rating goes below minus a billion points.
pub const RATING_MIN: i64 = -1_000_000_000_000_000;

/// A rating held within the range of ratings.
pub open spec fn held_rating(rating: int) -> int {
    if rating < RATING_MIN {
        RATING_MIN as int
    } else if rating > RATING_MAX {
        RATING_MAX as int
    } else {
        rating
    }
}

/// What the home side scored, in half points: 2 for a win, 1 for a draw, 0
/// for a loss.
pub open spec fn actual_halves(home_score: int, away_score: int) -> int {
    if home_score > away_score {
        2
    } else if home_score == away_score {
        1
    } else {
        0
    }
}

/// The margin multiplier in eighths: 1 for a margin of at most one, 1.5 for
/// a margin of two, and `(11 + margin) / 8` beyond.
pub open spec fn margin_eighths(home_score: int, away_score: int) -> int {
    let margin = if home_score >= away_score {
        home_score - away_score
    } else {
        away_score - home_score
    };
    if margin <= 1 {
        8
    } else if margin == 2 {
        12
    } else {
        11 + margin
    }
}

/// What the home side gains, in millionths of a point:
/// `k * multiplier * (actual - expected)`, its size rounded down. The away
/// side loses the same.
pub open spec fn home_gain(k: int, home_score: int, away_score: int, expected_home: int) -> int {
    let surprise = actual_halves(home_score, away_score) * 500_000_000 - clamp_prob(expected_home);
    let eighths = margin_eighths(home_score, away_score);
    if surprise >= 0 {
        (k * eighths * surprise) / 8_000
    } else {
        -((k * eighths * (-surprise)) / 8_000)
    }
}

/// The two ratings after a match: the home side gains what the away side
/// loses, and each stays within the range of ratings.
pub open spec fn updated_pair(
    k: int,
    home_rating: int,
    away_rating: int,
    home_score: int,
    away_score: int,
    expected_home: int,
) -> (int, int) {
    let gain = home_gain(k, home_score, away_score, expected_home);
    (held_rating(home_rating + gain), held_rating(away_rating - gain))
}

/// The rating of the home side as the expectation sees it: with the home
/// advantage, unless the venue is neutral.
pub open spec fn home_rating_at_venue(home_rating: int, is_neutral_venue: bool) -> int {
    if is_neutral_venue {
        home_rating
    } else {
        home_rating + HOME_ADVANTAGE
    }
}

/// The two ratings at which the expectation of the home side is evaluated.
#[derive(Clone, Copy, Debug, PartialEq, Eq, Structural)]
pub struct Pairing {
    /// The rating of the home side, with the home advantage in it.
    pub home: i64,
    /// The rating of the away side.
    pub away: i64,
}

/// The pairing of two ratings: each held within the range of ratings, the
/// home rating with the home advantage unless the venue is neutral.
pub open spec fn pairing_at(home_rating: int, away_rating: int, is_neutral_venue: bool) -> Pairing {
    Pairing {
        home: held_rating(home_rating_at_venue(held_rating(home_rating), is_neutral_venue)) as i64,
        away: held_rating(away_rating) as i64,
    }
}

/// The rules by which a result moves ratings.
#[derive(Clone, Copy, Debug)]
pub struct EloCalculator {
    /// The most rating points that a match moves before the margin is
    /// counted.
    pub k_factor: u32,
}

impl EloCalculator {
    /// The calculator with the standard K-factor.
    pub fn new() -> (c: EloCalculator)
        ensures
            c.k_factor == K_FACTOR,
    {
        EloCalculator { k_factor: K_FACTOR }
    }

    /// The two ratings at which the expectation of the home side is to be
    /// evaluated: the home rating with the home advantage, and the away
    /// rating.
    pub fn pairing(home_rating: i64, away_rating: i64, is_neutral_venue: bool) -> (p: Pairing)
        ensures
            p == pairing_at(home_rating as int, away_rating as int, is_neutral_venue),
    {
        let home: i64 = hold(home_rating as i128);
        let away: i64 = hold(away_rating as i128);
        if is_neutral_venue {
            Pairing { home, away }
        } else {
            Pairing { home: hold(home as i128 + HOME_ADVANTAGE as i128), away }
        }
    }

    /// Updates two ratings after a match, given the expectation of the home
    /// side in billionths.
    pub fn update_ratings(
        &self,
        home_rating: i64,
        away_rating: i64,
        home_score: i32,
        away_score: i32,
        expected_home: u32,
    ) -> (r: (i64, i64))
        ensures
            (r.0 as int, r.1 as int) == updated_pair(
                self.k_factor as int,
                home_rating as int,
                away_rating as int,
                home_score as int,
                away_score as int,
                expected_home as int,
            ),
            RATING_MIN <= r.0 <= RATING_MAX,
            RATING_MIN <= r.1 <= RATING_MAX,
    {
        let e: i64 = clamp_to_prob(expected_home) as i64;
        let halves: i64 = if home_score > away_score {
            2
        } else if home_score == away_score {
            1
        } else {
            0
        };
        let margin: i64 = if home_score >= away_score {
            home_score as i64 - away_score as i64
        } else {
            away_score as i64 - home_score as i64
        };
        let eighths: i64 = if margin <= 1 {
            8
        } else if margin == 2 {
            12
        } else {
            11 + margin
        };
        let surprise: i64 = halves * 500_000_000 - e;
        let size: u64 = if surprise >= 0 {
            surprise as u64
        } else {
            (-surprise) as u64
        };
        assert(self.k_factor * eighths * size <= 0xFFFF_FFFF * 0x1_0000_000A * 1_000_000_000)
            by (nonlinear_arith)
            requires
                0 <= self.k_factor <= 0xFFFF_FFFF,
                0 <= eighths <= 0x1_0000_000A,
                0 <= size <= 1_000_000_000,
        ;
        assert(self.k_factor * eighths <= 0xFFFF_FFFF * 0x1_0000_000A) by (nonlinear_arith)
            requires
                0 <= self.k_factor <= 0xFFFF_FFFF,
                0 <= eighths <= 0x1_0000_000A,
        ;
        let moved: u128 = ((self.k_factor as u128 * eighths as u128) * size as u128) / 8_000;
        assert(self.k_factor * eighths * size == (self.k_factor * eighths) * size) by (nonlinear_arith);
        let gain: i128 = if surprise >= 0 {
            moved as i128
        } else {
            -(moved as i128)
        };
        (hold(home_rating as i128 + gain), hold(away_rating as i128 - gain))
    }

    /// Updates, in a table of ratings, the two ratings of the teams of a
    /// match. A match with a team that is not in the table changes nothing.
    pub fn update_team_ratings(&self, ratings: &mut Vec<i64>, step: &ReplayStep, expected_home: u32)
        ensures
            final(ratings)@ == if step.home_row < old(ratings)@.len() && step.away_row < old(
                ratings,
            )@.len() {
                stepped(old(ratings)@, *step, self.k_factor, expected_home)
            } else {
                old(ratings)@
            },
    {
        if step.home_row >= ratings.len() || step.away_row >= ratings.len() {
            return ;
        }
        let (home, away) = self.update_ratings(
            ratings[step.home_row],
            ratings[step.away_row],
            step.home_score,
            step.away_score,
            expected_home,
        );
        ratings.set(step.home_row, home);
        ratings.set(step.away_row, away);
    }

    /// The rating at which a team enters a league: 1400 points in the
    /// Champions League, 1300 in the EPL, 1200 elsewhere.
    pub open spec fn initial_rating_of(league: Seq<char>) -> int {
        if league == "Champions League"@ {
            1_400_000_000
        } else if league == "EPL"@ {
            1_300_000_000
        } else {
            1_200_000_000
        }
    }

    /// Gives the rating at which a team enters a league.
    pub fn initial_rating_for_league(league: &str) -> (r: i64)
        ensures
            r == Self::initial_rating_of(league@),
    {
        if same_text(league, "Champions League") {
            1_400_000_000
        } else if same_text(league, "EPL") {
            1_300_000_000
        } else {
            1_200_000_000
        }
    }
}

/// Holds a rating within the range of ratings.
fn hold(rating: i128) -> (r: i64)
    ensures
        r == held_rating(rating as int),
{
    if rating < RATING_MIN as i128 {
        RATING_MIN
    } else if rating > RATING_MAX as i128 {
        RATING_MAX
    } else {
        rating as i64
    }
}

/// One match of a replay: where it stands in the history, where its two
/// teams stand in the table of teams, and how it ended.
#[derive(Clone, Copy, Debug, PartialEq, Eq, Structural)]
pub struct ReplayStep {
    pub match_row: usize,
    pub home_row: usize,
    pub away_row: usize,
    pub home_score: i32,
    pub away_score: i32,
    /// Kick-off, in seconds since the epoch.
    pub date: i64,
}

/// The rating of one team after one replayed match.
#[derive(Clone, Copy, Debug, PartialEq, Eq, Structural)]
pub struct RatingPoint {
    pub team_row: usize,
    pub match_row: usize,
    /// Kick-off of the match, in seconds since the epoch.
    pub date: i64,
    /// Millionths of a rating point.
    pub rating: i64,
}

/// The table of ratings after one step: the ratings of the two teams of the
/// match are updated, every other rating stays.
pub open spec fn stepped(ratings: Seq<i64>, step: ReplayStep, k: u32, expected_home: u32) -> Seq<i64> {
    let (home, away) = updated_pair(
        k as int,
        ratings[step.home_row as int] as int,
        ratings[step.away_row as int] as int,
        step.home_score as int,
        step.away_score as int,
        expected_home as int,
    );
    ratings.update(step.home_row as int, home as i64).update(step.away_row as int, away as i64)
}

/// The two history points that a step leaves: the new rating of the home
/// team, then that of the away team.
pub open spec fn points_of(after: Seq<i64>, step: ReplayStep) -> Seq<RatingPoint> {
    seq![
        RatingPoint {
            team_row: step.home_row,
            match_row: step.match_row,
            date: step.date,
            rating: after[step.home_row as int],
        },
        RatingPoint {
            team_row: step.away_row,
            match_row: step.match_row,
            date: step.date,
            rating: after[step.away_row as int],
        },
    ]
}

/// The table of ratings after the first `n` steps of a replay: every team
/// starts at the baseline, and each step takes the expectation that was
/// handed in for it.
pub open spec fn replayed(
    teams: nat,
    steps: Seq<ReplayStep>,
    k: u32,
    expectations: Seq<u32>,
    n: int,
) -> Seq<i64>
    decreases n,
{
    if n <= 0 {
        Seq::new(teams, |i: int| BASELINE_RATING)
    } else {
        stepped(replayed(teams, steps, k, expectations, n - 1), steps[n - 1], k, expectations[n - 1])
    }
}

/// The history points that the first `n` steps of a replay leave, two for
/// each step.
pub open spec fn trail(
    teams: nat,
    steps: Seq<ReplayStep>,
    k: u32,
    expectations: Seq<u32>,
    n: int,
) -> Seq<RatingPoint>
    decreases n,
{
    if n <= 0 {
        Seq::empty()
    } else {
        trail(teams, steps, k, expectations, n - 1) + points_of(
            replayed(teams, steps, k, expectations, n),
            steps[n - 1],
        )
    }
}

/// The two ratings at which the expectation of a step is evaluated.
pub open spec fn pairing_of(ratings: Seq<i64>, step: ReplayStep) -> Pairing {
    pairing_at(ratings[step.home_row as int] as int, ratings[step.away_row as int] as int, false)
}

/// The expectation of the home side of a step, taken from the value of the
/// rating curve at the gap of the step's pairing.
pub open spec fn step_expectation(ratings: Seq<i64>, step: ReplayStep, curve_value: u32) -> u32 {
    expected_score_of(
        pairing_of(ratings, step).home as int,
        pairing_of(ratings, step).away as int,
        curve_value as int,
    ) as u32
}

/// The row of the first team with the given id, looking from row `from` on.
pub open spec fn team_row(teams: Seq<Team>, id: Seq<char>, from: int) -> Option<int>
    decreases teams.len() - from,
{
    if from < 0 || from >= teams.len() {
        None
    } else if teams[from].id@ == id {
        Some(from)
    } else {
        team_row(teams, id, from + 1)
    }
}

/// Finds the row of a team by its id.
pub fn find_team(teams: &Vec<Team>, id: &str) -> (row: Option<usize>)
    ensures
        match row {
            Some(r) => team_row(teams@, id@, 0) == Some(r as int) && r < teams@.len(),
            None => team_row(teams@, id@, 0) is None,
        },
{
    let n: usize = teams.len();
    let mut i: usize = 0;
    while i < n
        invariant
            n == teams@.len(),
            i <= n,
            team_row(teams@, id@, 0) == team_row(teams@, id@, i as int),
        decreases n - i,
    {
        if same_text(teams[i].id.as_str(), id) {
            return Some(i);
        }
        i = i + 1;
    }
    None
}

/// The step of a match, if the match has a result and both of its teams
/// are in the table.
pub open spec fn step_of(teams: Seq<Team>, matches: Seq<Match>, row: int) -> Option<ReplayStep> {
    let m = matches[row];
    let home = team_row(teams, m.home_team_id@, 0);
    let away = team_row(teams, m.away_team_id@, 0);
    if m.is_result() && home is Some && away is Some {
        Some(
            ReplayStep {
                match_row: row as usize,
                home_row: home->0 as usize,
                away_row: away->0 as usize,
                home_score: m.home_score->0,
                away_score: m.away_score->0,
                date: m.match_date,
            },
        )
    } else {
        None
    }
}

/// The steps of the first `n` picked matches: a match that names a team
/// which is not in the table has no step.
pub open spec fn steps_of(teams: Seq<Team>, matches: Seq<Match>, picked: Seq<usize>, n: int) -> Seq<
    ReplayStep,
>
    decreases n,
{
    if n <= 0 {
        Seq::empty()
    } else {
        let before = steps_of(teams, matches, picked, n - 1);
        match step_of(teams, matches, picked[n - 1] as int) {
            Some(s) => before.push(s),
            None => before,
        }
    }
}

/// `steps` is the plan of a replay: the matches with a result, the earliest
/// first, those with one kick-off in the order of the history, less the
/// matches whose teams are not both known.
pub open spec fn is_replay_plan(teams: Seq<Team>, matches: Seq<Match>, steps: Seq<ReplayStep>) -> bool {
    exists|picked: Seq<usize>|
        #[trigger] is_selection(matches, FilterView::Results, false, matches.len() as int, picked)
            && steps == steps_of(teams, matches, picked, picked.len() as int)
}

/// Every step of a plan points into the table of teams.
pub open spec fn steps_fit(steps: Seq<ReplayStep>, teams: nat) -> bool {
    forall|i: int|
        0 <= i < steps.len() ==> (#[trigger] steps[i]).home_row < teams && steps[i].away_row < teams
}

/// Draws up the plan of a replay.
pub fn plan_replay(teams: &Vec<Team>, matches: &Vec<Match>) -> (steps: Vec<ReplayStep>)
    ensures
        is_replay_plan(teams@, matches@, steps@),
        steps_fit(steps@, teams@.len()),
{
    let filter: MatchFilter = MatchFilter::Results;
    let picked: Vec<usize> = select_matches(matches, &filter, false, matches.len());
    let mut steps: Vec<ReplayStep> = Vec::new();
    let n: usize = picked.len();
    let mut i: usize = 0;
    while i < n
        invariant
            n == picked@.len(),
            i <= n,
            is_selection(matches@, FilterView::Results, false, matches@.len() as int, picked@),
            forall|j: int| 0 <= j < picked@.len() ==> (#[trigger] picked@[j]) < matches@.len(),
            steps@ == steps_of(teams@, matches@, picked@, i as int),
            steps_fit(steps@, teams@.len()),
        decreases n - i,
    {
        let row: usize = picked[i];
        let m: &Match = &matches[row];
        let home: Option<usize> = find_team(teams, m.home_team_id.as_str());
        let away: Option<usize> = find_team(teams, m.away_team_id.as_str());
        match (home, away, m.home_score, m.away_score) {
            (Some(h), Some(a), Some(hs), Some(aws)) => {
                if m.has_result() {
                    steps.push(
                        ReplayStep {
                            match_row: row,
                            home_row: h,
                            away_row: a,
                            home_score: hs,
                            away_score: aws,
                            date: m.match_date,
                        },
                    );
                }
            },
            _ => {},
        }
        i = i + 1;
    }
    steps
}

/// A replay in progress: the working table of ratings, the plan, and the
/// history points written so far.
pub struct RatingReplay {
    calculator: EloCalculator,
    ratings: Vec<i64>,
    steps: Vec<ReplayStep>,
    position: usize,
    points: Vec<RatingPoint>,
    applied: Ghost<Seq<u32>>,
}

impl RatingReplay {
    #[verifier::type_invariant]
    spec fn consistent(self) -> bool {
        &&& self.position <= self.steps@.len()
        &&& self.applied@.len() == self.position
        &&& steps_fit(self.steps@, self.ratings@.len())
        &&& self.ratings@ == replayed(
            self.ratings@.len(),
            self.steps@,
            self.calculator.k_factor,
            self.applied@,
            self.position as int,
        )
        &&& self.points@ == trail(
            self.ratings@.len(),
            self.steps@,
            self.calculator.k_factor,
            self.applied@,
            self.position as int,
        )
    }

    /// The K-factor of the replay.
    pub closed spec fn k_factor(self) -> u32 {
        self.calculator.k_factor
    }

    /// The number of teams in the working table.
    pub closed spec fn team_count(self) -> nat {
        self.ratings@.len()
    }

    /// The plan.
    pub closed spec fn plan(self) -> Seq<ReplayStep> {
        self.steps@
    }

    /// The expectations applied so far, one for each step that was played.
    pub closed spec fn expectations(self) -> Seq<u32> {
        self.applied@
    }

    /// The working table of ratings.
    pub closed spec fn table(self) -> Seq<i64> {
        self.ratings@
    }

    /// The history points written so far.
    pub closed spec fn written(self) -> Seq<RatingPoint> {
        self.points@
    }

    /// The replay is at the state that the plan and the expectations applied
    /// so far lead to from the baseline.
    pub open spec fn on_course(self) -> bool {
        &&& self.expectations().len() <= self.plan().len()
        &&& steps_fit(self.plan(), self.team_count())
        &&& self.table() == replayed(
            self.team_count(),
            self.plan(),
            self.k_factor(),
            self.expectations(),
            self.expectations().len() as int,
        )
        &&& self.written() == trail(
            self.team_count(),
            self.plan(),
            self.k_factor(),
            self.expectations(),
            self.expectations().len() as int,
        )
    }

    /// Every step of the plan has been played.
    pub open spec fn is_complete(self) -> bool {
        self.expectations().len() == self.plan().len()
    }

    /// Starts a replay: every team at the baseline, whatever its rating
    /// was, and the plan drawn up from the history.
    pub fn begin(teams: &Vec<Team>, matches: &Vec<Match>) -> (r: RatingReplay)
        ensures
            r.on_course(),
            r.k_factor() == K_FACTOR,
            r.team_count() == teams@.len(),
            is_replay_plan(teams@, matches@, r.plan()),
            r.expectations() == Seq::<u32>::empty(),
    {
        let steps: Vec<ReplayStep> = plan_replay(teams, matches);
        let mut ratings: Vec<i64> = Vec::new();
        let n: usize = teams.len();
        let mut i: usize = 0;
        while i < n
            invariant
                n == teams@.len(),
                i <= n,
                ratings@.len() == i,
                forall|j: int| 0 <= j < i ==> ratings@[j] == BASELINE_RATING,
            decreases n - i,
        {
            ratings.push(BASELINE_RATING);
            i = i + 1;
        }
        assert(ratings@ =~= replayed(n as nat, steps@, K_FACTOR, Seq::<u32>::empty(), 0));
        RatingReplay {
            calculator: EloCalculator::new(),
            ratings,
            steps,
            position: 0,
            points: Vec::new(),
            applied: Ghost(Seq::empty()),
        }
    }

    /// The step that is played next, if one is left.
    pub fn next_step(&self) -> (s: Option<ReplayStep>)
        ensures
            self.is_complete() <==> s is None,
            s is Some ==> s->0 == self.plan()[self.expectations().len() as int],
    {
        proof {
            use_type_invariant(self);
        }
        if self.position < self.steps.len() {
            Some(self.steps[self.position])
        } else {
            None
        }
    }

    /// The two ratings at which the expectation of the next step is to be
    /// evaluated: the home team's with the home advantage, and the away
    /// team's. Nothing when no step is left.
    pub fn pending(&self) -> (p: Option<Pairing>)
        ensures
            self.is_complete() <==> p is None,
            p is Some ==> p->0 == pairing_of(
                self.table(),
                self.plan()[self.expectations().len() as int],
            ),
    {
        proof {
            use_type_invariant(self);
        }
        if self.position < self.steps.len() {
            let step: ReplayStep = self.steps[self.position];
            Some(
                EloCalculator::pairing(self.ratings[step.home_row], self.ratings[step.away_row], false),
            )
        } else {
            None
        }
    }

    /// Plays the next step with the value of the rating curve at the gap of
    /// its pairing, in billionths: the expectation of the home side is
    /// taken from it, the two ratings move and two history points are
    /// written. A replay that is complete stays as it is.
    pub fn apply(self, curve_value: u32) -> (r: RatingReplay)
        ensures
            r.on_course(),
            r.k_factor() == self.k_factor(),
            r.team_count() == self.team_count(),
            r.plan() == self.plan(),
            self.is_complete() ==> r.expectations() == self.expectations(),
            !self.is_complete() ==> r.expectations() == self.expectations().push(
                step_expectation(
                    self.table(),
                    self.plan()[self.expectations().len() as int],
                    curve_value,
                ),
            ),
            !self.is_complete() ==> r.table() == stepped(
                self.table(),
                self.plan()[self.expectations().len() as int],
                self.k_factor(),
                step_expectation(
                    self.table(),
                    self.plan()[self.expectations().len() as int],
                    curve_value,
                ),
            ),
    {
        match self.pending() {
            Some(pairing) => {
                let expected_home: u32 = EloCalculator::expected_score(
                    pairing.home,
                    pairing.away,
                    curve_value,
                );
                self.apply_expectation(expected_home)
            },
            None => self.apply_expectation(0),
        }
    }

    /// Plays the next step with the expectation of its home side, in
    /// billionths: the two ratings move and two history points are written.
    /// A replay that is complete stays as it is.
    pub fn apply_expectation(self, expected_home: u32) -> (r: RatingReplay)
        ensures
            r.on_course(),
            r.k_factor() == self.k_factor(),
            r.team_count() == self.team_count(),
            r.plan() == self.plan(),
            self.is_complete() ==> r.expectations() == self.expectations(),
            !self.is_complete() ==> r.expectations() == self.expectations().push(expected_home),
            !self.is_complete() ==> r.table() == stepped(
                self.table(),
                self.plan()[self.expectations().len() as int],
                self.k_factor(),
                expected_home,
            ),
    {
        proof {
            use_type_invariant(&self);
        }
        let RatingReplay { calculator, mut ratings, steps, position, mut points, applied } = self;
        if position >= steps.len() {
            return RatingReplay { calculator, ratings, steps, position, points, applied };
        }
        let step: ReplayStep = steps[position];
        let ghost before = ratings@;
        let ghost next = applied@.push(expected_home);
        proof {
            lemma_replayed_prefix(
                before.len(),
                steps@,
                calculator.k_factor,
                applied@,
                next,
                position as int,
            );
        }
        calculator.update_team_ratings(&mut ratings, &step, expected_home);
        points.push(
            RatingPoint {
                team_row: step.home_row,
                match_row: step.match_row,
                date: step.date,
                rating: ratings[step.home_row],
            },
        );
        points.push(
            RatingPoint {
                team_row: step.away_row,
                match_row: step.match_row,
                date: step.date,
                rating: ratings[step.away_row],
            },
        );
        proof {
            assert(ratings@ == replayed(
                before.len(),
                steps@,
                calculator.k_factor,
                next,
                position + 1,
            ));
            assert(points@ =~= trail(
                before.len(),
                steps@,
                calculator.k_factor,
                next,
                position + 1,
            ));
        }
        RatingReplay {
            calculator,
            ratings,
            steps,
            position: position + 1,
            points,
            applied: Ghost(next),
        }
    }

    /// Hands out the new ratings, one for each team in the order of the
    /// table, and the history points, once the replay is complete. Before
    /// that nothing is handed out and the replay is given back.
    pub fn finish(self) -> (r: Result<(Vec<i64>, Vec<RatingPoint>), RatingReplay>)
        ensures
            self.is_complete() <==> r is Ok,
            r is Ok ==> (r->Ok_0).0@ == self.table() && (r->Ok_0).1@ == self.written(),
            r is Err ==> r->Err_0 == self,
    {
        proof {
            use_type_invariant(&self);
        }
        if self.position >= self.steps.len() {
            Ok((self.ratings, self.points))
        } else {
            Err(self)
        }
    }
}

/// The state after `n` steps depends on the first `n` expectations only.
pub proof fn lemma_replayed_prefix(
    teams: nat,
    steps: Seq<ReplayStep>,
    k: u32,
    first: Seq<u32>,
    second: Seq<u32>,
    n: int,
)
    requires
        n <= first.len(),
        n <= second.len(),
        forall|i: int| 0 <= i < n ==> first[i] == second[i],
    ensures
        replayed(teams, steps, k, first, n) == replayed(teams, steps, k, second, n),
        trail(teams, steps, k, first, n) == trail(teams, steps, k, second, n),
    decreases n,
{
    if n > 0 {
        lemma_replayed_prefix(teams, steps, k, first, second, n - 1);
    }
}

/// Every rating of a replay lies within the range of ratings, and the
/// table keeps its length.
pub proof fn lemma_replayed_in_range(
    teams: nat,
    steps: Seq<ReplayStep>,
    k: u32,
    expectations: Seq<u32>,
    n: int,
)
    requires
        steps_fit(steps, teams),
        n <= steps.len(),
    ensures
        replayed(teams, steps, k, expectations, n).len() == teams,
        forall|i: int|
            0 <= i < teams ==> RATING_MIN <= #[trigger] replayed(teams, steps, k, expectations, n)[i]
                <= RATING_MAX,
    decreases n,
{
    if n > 0 {
        lemma_replayed_in_range(teams, steps, k, expectations, n - 1);
    }
}

/// In the first `n` steps of a run, every expectation is the value of the
/// curve at the pairing of its step.
pub open spec fn follows_curve(
    teams: nat,
    steps: Seq<ReplayStep>,
    k: u32,
    curve: spec_fn(Pairing) -> u32,
    expectations: Seq<u32>,
    n: int,
) -> bool
    decreases n,
{
    n <= 0 || (follows_curve(teams, steps, k, curve, expectations, n - 1) && expectations[n - 1]
        == curve(pairing_of(replayed(teams, steps, k, expectations, n - 1), steps[n - 1])))
}

/// A replay is determined by its plan and by the curve that gives the
/// expectations: two runs over one plan, each answering every pairing with
/// the value of one and the same curve, end with the same ratings and the
/// same history points. The ratings that the teams had before the replay
/// play no part.
pub proof fn lemma_replay_deterministic(
    teams: nat,
    steps: Seq<ReplayStep>,
    k: u32,
    curve: spec_fn(Pairing) -> u32,
    first: Seq<u32>,
    second: Seq<u32>,
    n: int,
)
    requires
        0 <= n <= steps.len(),
        n <= first.len(),
        n <= second.len(),
        follows_curve(teams, steps, k, curve, first, n),
        follows_curve(teams, steps, k, curve, second, n),
    ensures
        replayed(teams, steps, k, first, n) == replayed(teams, steps, k, second, n),
        trail(teams, steps, k, first, n) == trail(teams, steps, k, second, n),
        first.subrange(0, n) == second.subrange(0, n),
    decreases n,
{
    if n > 0 {
        lemma_replay_deterministic(teams, steps, k, curve, first, second, n - 1);
        assert(first[n - 1] == second[n - 1]);
        assert(first.subrange(0, n) =~= first.subrange(0, n - 1).push(first[n - 1]));
        assert(second.subrange(0, n) =~= second.subrange(0, n - 1).push(second[n - 1]));
    } else {
        assert(first.subrange(0, n) =~= second.subrange(0, n));
    }
}

/// A history has one replay plan.
pub proof fn lemma_replay_plan_unique(
    teams: Seq<Team>,
    matches: Seq<Match>,
    first: Seq<ReplayStep>,
    second: Seq<ReplayStep>,
)
    requires
        is_replay_plan(teams, matches, first),
        is_replay_plan(teams, matches, second),
    ensures
        first == second,
{
    let p1 = choose|picked: Seq<usize>|
        #[trigger] is_selection(matches, FilterView::Results, false, matches.len() as int, picked)
            && first == steps_of(teams, matches, picked, picked.len() as int);
    let p2 = choose|picked: Seq<usize>|
        #[trigger] is_selection(matches, FilterView::Results, false, matches.len() as int, picked)
            && second == steps_of(teams, matches, picked, picked.len() as int);
    crate::select::lemma_ranking_unique(
        crate::history::match_dates(matches),
        crate::history::selected(matches, FilterView::Results),
        false,
        matches.len() as int,
        p1,
        p2,
    );
}

/// Two tables list the same teams in the same order, whatever their
/// ratings and other fields are.
pub open spec fn same_teams(first: Seq<Team>, second: Seq<Team>) -> bool {
    &&& first.len() == second.len()
    &&& forall|i: int| 0 <= i < first.len() ==> (#[trigger] first[i]).id@ == second[i].id@
}

/// A team is found at the same row in two tables that list the same teams.
proof fn lemma_team_row_ignores_ratings(first: Seq<Team>, second: Seq<Team>, id: Seq<char>, from: int)
    requires
        same_teams(first, second),
    ensures
        team_row(first, id, from) == team_row(second, id, from),
    decreases first.len() - from,
{
    if 0 <= from < first.len() {
        assert(first[from].id@ == second[from].id@);
        if first[from].id@ != id {
            lemma_team_row_ignores_ratings(first, second, id, from + 1);
        }
    }
}

/// The steps of a plan do not depend on the ratings in the table of teams.
proof fn lemma_steps_ignore_ratings(
    first: Seq<Team>,
    second: Seq<Team>,
    matches: Seq<Match>,
    picked: Seq<usize>,
    n: int,
)
    requires
        same_teams(first, second),
    ensures
        steps_of(first, matches, picked, n) == steps_of(second, matches, picked, n),
    decreases n,
{
    if n > 0 {
        lemma_steps_ignore_ratings(first, second, matches, picked, n - 1);
        let m = matches[picked[n - 1] as int];
        lemma_team_row_ignores_ratings(first, second, m.home_team_id@, 0);
        lemma_team_row_ignores_ratings(first, second, m.away_team_id@, 0);
    }
}

/// A rebuild does not depend on the ratings it replaces: the plan of a
/// replay is the same for every table that lists the same teams, and so the
/// replay starts from the same baseline and plays the same steps. Together
/// with `lemma_replay_deterministic`: rebuilding twice over one history
/// gives the same ratings twice.
pub proof fn lemma_rebuild_ignores_ratings(
    first: Seq<Team>,
    second: Seq<Team>,
    matches: Seq<Match>,
    steps: Seq<ReplayStep>,
)
    requires
        same_teams(first, second),
        is_replay_plan(first, matches, steps),
    ensures
        is_replay_plan(second, matches, steps),
{
    let picked = choose|picked: Seq<usize>|
        #[trigger] is_selection(matches, FilterView::Results, false, matches.len() as int, picked)
            && steps == steps_of(first, matches, picked, picked.len() as int);
    lemma_steps_ignore_ratings(first, second, matches, picked, picked.len() as int);
}

/// Why a finished match is not replayed.
#[derive(Clone, Copy, Debug, PartialEq, Eq, Structural)]
pub enum SkipReason {
    /// A score of the match is missing.
    MissingScore,
    /// The home team of the match is not in the table of teams.
    UnknownHomeTeam,
    /// The away team of the match is not in the table of teams.
    UnknownAwayTeam,
}

/// A finished match that a replay passes over, and why.
#[derive(Clone, Copy, Debug, PartialEq, Eq, Structural)]
pub struct ReplaySkip {
    /// The row of the match in the history.
    pub match_row: usize,
    pub reason: SkipReason,
}

/// Why a replay passes over a match: nothing for a match that is replayed
/// and for a match that is not finished, else the first of the reasons that
/// holds.
pub open spec fn skip_reason_of(teams: Seq<Team>, m: Match) -> Option<SkipReason> {
    if m.status != MatchStatus::Finished {
        None
    } else if m.home_score is None || m.away_score is None {
        Some(SkipReason::MissingScore)
    } else if team_row(teams, m.home_team_id@, 0) is None {
        Some(SkipReason::UnknownHomeTeam)
    } else if team_row(teams, m.away_team_id@, 0) is None {
        Some(SkipReason::UnknownAwayTeam)
    } else {
        None
    }
}

/// The finished matches among the first `n` of the history that a replay
/// passes over, in the order of the history.
pub open spec fn skips_upto(teams: Seq<Team>, matches: Seq<Match>, n: int) -> Seq<ReplaySkip>
    decreases n,
{
    if n <= 0 {
        Seq::empty()
    } else {
        let before = skips_upto(teams, matches, n - 1);
        match skip_reason_of(teams, matches[n - 1]) {
            Some(reason) => before.push(ReplaySkip { match_row: (n - 1) as usize, reason }),
            None => before,
        }
    }
}

/// A finished match has a step in the plan, or a reason why it has none,
/// and never both; a match that is not finished has neither.
pub proof fn lemma_replayed_or_skipped(teams: Seq<Team>, matches: Seq<Match>, row: int)
    requires
        0 <= row < matches.len(),
    ensures
        matches[row].status == MatchStatus::Finished ==> (step_of(
            teams,
            matches,
            row,
        ) is Some <==> skip_reason_of(teams, matches[row]) is None),
        matches[row].status != MatchStatus::Finished ==> step_of(teams, matches, row)
            is None && skip_reason_of(teams, matches[row]) is None,
{
}

/// Lists the finished matches that a replay of the history passes over,
/// each with the reason, so that they can be reported.
pub fn replay_skips(teams: &Vec<Team>, matches: &Vec<Match>) -> (skips: Vec<ReplaySkip>)
    ensures
        skips@ == skips_upto(teams@, matches@, matches@.len() as int),
{
    let mut skips: Vec<ReplaySkip> = Vec::new();
    let n: usize = matches.len();
    let mut i: usize = 0;
    while i < n
        invariant
            n == matches@.len(),
            i <= n,
            skips@ == skips_upto(teams@, matches@, i as int),
        decreases n - i,
    {
        let m: &Match = &matches[i];
        if m.status == MatchStatus::Finished {
            if m.home_score.is_none() || m.away_score.is_none() {
                skips.push(ReplaySkip { match_row: i, reason: SkipReason::MissingScore });
            } else if find_team(teams, m.home_team_id.as_str()).is_none() {
                skips.push(ReplaySkip { match_row: i, reason: SkipReason::UnknownHomeTeam });
            } else if find_team(teams, m.away_team_id.as_str()).is_none() {
                skips.push(ReplaySkip { match_row: i, reason: SkipReason::UnknownAwayTeam });
            }
        }
        i = i + 1;
    }
    skips
}

/// Writes the history point of a team after a match.
pub fn history_point(team: &Team, m: &Match, rating: i64) -> (p: EloHistoryPoint)
    ensures
        p.team_id@ == team.id@,
        p.date == m.match_date,
        p.elo_rating == rating,
        p.match_id is Some && (p.match_id->0)@ == m.id@,
{
    EloHistoryPoint {
        team_id: team.id.clone(),
        date: m.match_date,
        elo_rating: rating,
        match_id: Some(m.id.clone()),
    }
}

/// The share of the K-factor that a team of the given rating moves, in
/// tenths: 0.8 above 1600 points, 0.9 above 1400, else all of it.
pub open spec fn rating_factor_tenths(team_rating: i64) -> int {
    if team_rating > 1_600_000_000 {
        8
    } else if team_rating > 1_400_000_000 {
        9
    } else {
        10
    }
}

/// What a result adds to the strength of a team, in millionths of a point,
/// at a weight in millionths: 20 points for a win, 10 for a draw, minus 20
/// for a loss, each times the weight.
pub open spec fn form_bonus(letter: char, weight: int) -> int {
    if letter == 'W' {
        20 * weight
    } else if letter == 'D' {
        10 * weight
    } else if letter == 'L' {
        -20 * weight
    } else {
        0
    }
}

/// The weight of the result at position `age` from the end of a form
/// string, in millionths: each result weighs 0.8 of the one after it,
/// rounded down.
pub open spec fn bonus_weight(age: int) -> int
    decreases age,
{
    if age <= 0 {
        1_000_000
    } else {
        (bonus_weight(age - 1) * 4) / 5
    }
}

/// The sum of the bonuses of the last `n` results of a form string, the
/// last result weighing most.
pub open spec fn form_bonus_sum(form: Seq<char>, n: int) -> int
    decreases n,
{
    if n <= 0 {
        0
    } else {
        form_bonus_sum(form, n - 1) + form_bonus(form[form.len() - n], bonus_weight(n - 1))
    }
}

/// The adjustment that a form string makes to the strength of a team: the
/// sum of its bonuses, held between minus and plus 100 points.
pub open spec fn form_adjustment_of(form: Seq<char>) -> int {
    let sum = form_bonus_sum(form, form.len() as int);
    if sum < -100_000_000 {
        -100_000_000
    } else if sum > 100_000_000 {
        100_000_000
    } else {
        sum
    }
}

/// The weights of a form string never grow and never go below zero.
pub proof fn lemma_bonus_weight_bounds(age: int)
    ensures
        0 <= bonus_weight(age) <= 1_000_000,
    decreases age,
{
    if age > 0 {
        lemma_bonus_weight_bounds(age - 1);
    }
}

/// The expectation of the stronger of two sides as it is taken from the
/// curve: no less than one half and no more than one.
pub open spec fn favourite_share(curve_value: int) -> int {
    if curve_value < 500_000_000 {
        500_000_000
    } else if curve_value > 1_000_000_000 {
        1_000_000_000
    } else {
        curve_value
    }
}

/// The expected score of a side rated `rating_a` against a side rated
/// `rating_b`, in billionths. `curve_value` is the rating curve at the gap
/// between the two ratings, which is the expectation of the stronger side;
/// the weaker side expects the rest, and equals expect one half each.
pub open spec fn expected_score_of(rating_a: int, rating_b: int, curve_value: int) -> int {
    if rating_a == rating_b {
        500_000_000
    } else if rating_a > rating_b {
        favourite_share(curve_value)
    } else {
        1_000_000_000 - favourite_share(curve_value)
    }
}

/// The expected scores of two sides against each other sum to one,
/// whatever their ratings are and whatever the curve gives for their gap.
pub proof fn lemma_expected_score_symmetry(rating_a: int, rating_b: int, curve_value: int)
    ensures
        expected_score_of(rating_a, rating_b, curve_value) + expected_score_of(
            rating_b,
            rating_a,
            curve_value,
        ) == 1_000_000_000,
        0 <= expected_score_of(rating_a, rating_b, curve_value) <= 1_000_000_000,
{
}

impl EloCalculator {
    /// The gap between two ratings, at which the rating curve is to be
    /// evaluated.
    pub fn rating_gap(rating_a: i64, rating_b: i64) -> (gap: u64)
        ensures
            gap == if rating_a >= rating_b {
                rating_a - rating_b
            } else {
                rating_b - rating_a
            },
    {
        if rating_a >= rating_b {
            (rating_a as i128 - rating_b as i128) as u64
        } else {
            (rating_b as i128 - rating_a as i128) as u64
        }
    }

    /// Computes the expected score of a side rated `rating_a` against a
    /// side rated `rating_b` from the value of the rating curve at their
    /// gap.
    pub fn expected_score(rating_a: i64, rating_b: i64, curve_value: u32) -> (e: u32)
        ensures
            e == expected_score_of(rating_a as int, rating_b as int, curve_value as int),
            e <= 1_000_000_000,
    {
        let favourite: u32 = if curve_value < 500_000_000 {
            500_000_000
        } else if curve_value > 1_000_000_000 {
            1_000_000_000
        } else {
            curve_value
        };
        if rating_a == rating_b {
            500_000_000
        } else if rating_a > rating_b {
            favourite
        } else {
            1_000_000_000 - favourite
        }
    }
}

/// What the home side gains the away side loses: where neither rating
/// reaches the end of the range of ratings, an update leaves the sum of
/// the two ratings as it was.
pub proof fn lemma_update_conserves_points(
    k: int,
    home_rating: int,
    away_rating: int,
    home_score: int,
    away_score: int,
    expected_home: int,
)
    requires
        RATING_MIN < updated_pair(k, home_rating, away_rating, home_score, away_score, expected_home).0
            < RATING_MAX,
        RATING_MIN < updated_pair(k, home_rating, away_rating, home_score, away_score, expected_home).1
            < RATING_MAX,
    ensures
        updated_pair(k, home_rating, away_rating, home_score, away_score, expected_home).0
            + updated_pair(k, home_rating, away_rating, home_score, away_score, expected_home).1
            == home_rating + away_rating,
{
}

impl EloCalculator {
    /// Computes the rating sub-model from the expectation of the home
    /// side, which is the curve evaluated at `pairing` of the two ratings.
    pub fn win_probability(&self, expected_home: u32, sport: Sport) -> (o: Outlook)
        ensures
            o == rating_outlook(expected_home as int, sport),
            o.is_closed(),
            o.draw is Some <==> sport.has_draws(),
    {
        crate::ensemble::win_probability(expected_home, sport)
    }

    /// Computes the K-factor for a team and a match, in millionths of a
    /// point: the K-factor, less for a team of high rating, times the
    /// importance of the match in thousandths.
    pub fn adaptive_k_factor(&self, team_rating: i64, match_importance: u32) -> (k: u128)
        ensures
            k == self.k_factor * rating_factor_tenths(team_rating) * match_importance * 100,
    {
        let tenths: u64 = if team_rating > 1_600_000_000 {
            8
        } else if team_rating > 1_400_000_000 {
            9
        } else {
            10
        };
        assert(self.k_factor * tenths * match_importance * 100 == (self.k_factor as u64 * tenths)
            * match_importance * 100) by (nonlinear_arith);
        assert((self.k_factor * tenths) * match_importance <= 0xFFFF_FFFF * 10 * 0xFFFF_FFFF)
            by (nonlinear_arith)
            requires
                0 <= self.k_factor <= 0xFFFF_FFFF,
                0 <= tenths <= 10,
                0 <= match_importance <= 0xFFFF_FFFF,
        ;
        assert(self.k_factor * tenths <= 0xFFFF_FFFF * 10) by (nonlinear_arith)
            requires
                0 <= self.k_factor <= 0xFFFF_FFFF,
                0 <= tenths <= 10,
        ;
        (self.k_factor as u128 * tenths as u128) * match_importance as u128 * 100
    }

    /// Computes the adjustment that a form string such as `WLWDW` makes to
    /// the strength of a team, the last letter being the latest result.
    pub fn calculate_form_adjustment(&self, form: &str) -> (adjustment: i64)
        ensures
            adjustment == form_adjustment_of(form@),
            -100_000_000 <= adjustment <= 100_000_000,
    {
        let len: usize = form.unicode_len();
        let mut sum: i128 = 0;
        let mut weight: i128 = 1_000_000;
        let mut n: usize = 0;
        while n < len
            invariant
                len == form@.len(),
                n <= len,
                sum == form_bonus_sum(form@, n as int),
                weight == bonus_weight(n as int),
                0 <= weight <= 1_000_000,
                -20_000_000 * n <= sum <= 20_000_000 * n,
            decreases len - n,
        {
            let letter: char = form.get_char(len - 1 - n);
            let bonus: i128 = if letter == 'W' {
                20 * weight
            } else if letter == 'D' {
                10 * weight
            } else if letter == 'L' {
                0 - 20 * weight
            } else {
                0
            };
            proof {
                lemma_bonus_weight_bounds(n as int + 1);
                assert(form@[form@.len() - (n + 1)] == letter);
                assert(bonus == form_bonus(letter, weight as int));
                assert(-20_000_000 <= bonus <= 20_000_000);
            }
            sum = sum + bonus;
            weight = (weight * 4) / 5;
            n = n + 1;
        }
        if sum < -100_000_000 {
            -100_000_000
        } else if sum > 100_000_000 {
            100_000_000
        } else {
            sum as i64
        }
    }

    /// Computes the strength of a team: its rating, adjusted by its recent
    /// form where that is known.
    pub fn team_strength(&self, elo_rating: i64, recent_form: Option<&str>) -> (strength: i64)
        ensures
            strength == held_rating(
                elo_rating + match recent_form {
                    Some(form) => form_adjustment_of(form@),
                    None => 0,
                },
            ),
    {
        match recent_form {
            Some(form) => hold(elo_rating as i128 + self.calculate_form_adjustment(form) as i128),
            None => hold(elo_rating as i128),
        }
    }
}

} // verus!
