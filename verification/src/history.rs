//! What the match history says about a fixture: the earlier meetings of the
//! two teams, each team's recent form at home or away, and the days of rest
//! before kick-off.

use crate::dates::{days_between, whole_days};
use crate::ensemble::Tally;
use crate::models::{Match, MatchStatus, Sport, TeamStats};
use crate::select::{is_ranking, rank_indices};
use crate::text::{push_char, same_text};
use crate::units::{share, share_of, PROB_ONE};
use vstd::prelude::*;
use vstd::string::*;

verus! {

/// How many earlier meetings the head-to-head sub-model looks at.
pub const HEAD_TO_HEAD_LIMIT: usize = 10;

/// How many matches the form of a team is computed from.
pub const FORM_WINDOW: usize = 8;

/// A form built on fewer matches than this is not used.
pub const FORM_MIN_SAMPLE: usize = 3;

/// The most days of rest that count.
pub const REST_CAP: u32 = 7;

/// A question that selects matches from the history.
pub enum MatchFilter<'a> {
    /// Finished matches with both scores: what the rating replay runs on.
    Results,
    /// Finished matches between two teams, whoever was at home.
    Meetings { team: &'a str, other: &'a str },
    /// Finished matches of a sport that a team played at home, or away.
    Venue { team: &'a str, at_home: bool, sport: Sport },
    /// Finished matches of a team that kicked off before an instant.
    Before { team: &'a str, instant: i64 },
    /// Finished matches of a team, at home or away, whose home score is
    /// known.
    Played { team: &'a str },
    /// Scheduled matches of a sport that kick off after `after` and before
    /// `before`.
    Upcoming { sport: Sport, after: i64, before: i64 },
}

/// A question that selects matches from the history, with the ids it asks
/// about as texts.
pub enum FilterView {
    Results,
    Meetings { team: Seq<char>, other: Seq<char> },
    Venue { team: Seq<char>, at_home: bool, sport: Sport },
    Before { team: Seq<char>, instant: i64 },
    Played { team: Seq<char> },
    Upcoming { sport: Sport, after: i64, before: i64 },
}

impl FilterView {
    /// Whether the filter selects the match.
    pub open spec fn selects(self, m: Match) -> bool {
        match self {
            FilterView::Results => m.is_result(),
            FilterView::Meetings { team, other } => m.status == MatchStatus::Finished && ((
            m.home_team_id@ == team && m.away_team_id@ == other) || (m.home_team_id@ == other
                && m.away_team_id@ == team)),
            FilterView::Venue { team, at_home, sport } => m.status == MatchStatus::Finished
                && m.sport == sport && if at_home {
                m.home_team_id@ == team
            } else {
                m.away_team_id@ == team
            },
            FilterView::Before { team, instant } => m.status == MatchStatus::Finished && (
            m.home_team_id@ == team || m.away_team_id@ == team) && m.match_date < instant,
            FilterView::Played { team } => m.status == MatchStatus::Finished && (m.home_team_id@
                == team || m.away_team_id@ == team) && m.home_score is Some,
            FilterView::Upcoming { sport, after, before } => m.status == MatchStatus::Scheduled
                && m.sport == sport && after < m.match_date < before,
        }
    }
}

impl<'a> View for MatchFilter<'a> {
    type V = FilterView;

    open spec fn view(&self) -> FilterView {
        match *self {
            MatchFilter::Results => FilterView::Results,
            MatchFilter::Meetings { team, other } => FilterView::Meetings {
                team: team@,
                other: other@,
            },
            MatchFilter::Venue { team, at_home, sport } => FilterView::Venue {
                team: team@,
                at_home,
                sport,
            },
            MatchFilter::Before { team, instant } => FilterView::Before { team: team@, instant },
            MatchFilter::Played { team } => FilterView::Played { team: team@ },
            MatchFilter::Upcoming { sport, after, before } => FilterView::Upcoming {
                sport,
                after,
                before,
            },
        }
    }
}

impl<'a> MatchFilter<'a> {
    /// Tells whether the filter selects the match.
    pub fn accepts(&self, m: &Match) -> (b: bool)
        ensures
            b == self@.selects(*m),
    {
        match self {
            MatchFilter::Results => m.has_result(),
            MatchFilter::Meetings { team, other } => m.status == MatchStatus::Finished && ((
            same_text(m.home_team_id.as_str(), team) && same_text(m.away_team_id.as_str(), other))
                || (same_text(m.home_team_id.as_str(), other) && same_text(
                m.away_team_id.as_str(),
                team,
            ))),
            MatchFilter::Venue { team, at_home, sport } => m.status == MatchStatus::Finished
                && m.sport == *sport && if *at_home {
                same_text(m.home_team_id.as_str(), team)
            } else {
                same_text(m.away_team_id.as_str(), team)
            },
            MatchFilter::Before { team, instant } => m.status == MatchStatus::Finished && (
            same_text(m.home_team_id.as_str(), team) || same_text(m.away_team_id.as_str(), team))
                && m.match_date < *instant,
            MatchFilter::Played { team } => m.status == MatchStatus::Finished && (same_text(
                m.home_team_id.as_str(),
                team,
            ) || same_text(m.away_team_id.as_str(), team)) && m.home_score.is_some(),
            MatchFilter::Upcoming { sport, after, before } => m.status == MatchStatus::Scheduled
                && m.sport == *sport && *after < m.match_date && m.match_date < *before,
        }
    }
}

/// The kick-off of each match of a list.
pub open spec fn match_dates(matches: Seq<Match>) -> Seq<i64> {
    Seq::new(matches.len(), |i: int| matches[i].match_date)
}

/// For each match of a list, whether the filter selects it.
pub open spec fn selected(matches: Seq<Match>, filter: FilterView) -> Seq<bool> {
    Seq::new(matches.len(), |i: int| filter.selects(matches[i]))
}

/// `picked` holds the rows of the matches that the filter selects, ordered
/// by kick-off (the latest first if `newest_first`, else the earliest
/// first), matches with one kick-off in the order of the list, and no more
/// than `limit` of them: the first `limit` in that order.
pub open spec fn is_selection(
    matches: Seq<Match>,
    filter: FilterView,
    newest_first: bool,
    limit: int,
    picked: Seq<usize>,
) -> bool {
    is_ranking(match_dates(matches), selected(matches, filter), newest_first, limit, picked)
}

/// Selects matches from the history, ordered by kick-off.
pub fn select_matches(
    matches: &Vec<Match>,
    filter: &MatchFilter,
    newest_first: bool,
    limit: usize,
) -> (picked: Vec<usize>)
    ensures
        is_selection(matches@, filter@, newest_first, limit as int, picked@),
        picked@.len() <= limit,
        forall|j: int| 0 <= j < picked@.len() ==> (#[trigger] picked@[j]) < matches@.len(),
{
    let n: usize = matches.len();
    let mut dates: Vec<i64> = Vec::new();
    let mut flags: Vec<bool> = Vec::new();
    let mut i: usize = 0;
    while i < n
        invariant
            n == matches.len(),
            i <= n,
            dates@.len() == i,
            flags@.len() == i,
            forall|j: int| 0 <= j < i ==> dates@[j] == matches@[j].match_date,
            forall|j: int| 0 <= j < i ==> flags@[j] == filter@.selects(matches@[j]),
        decreases n - i,
    {
        dates.push(matches[i].match_date);
        flags.push(filter.accepts(&matches[i]));
        i = i + 1;
    }
    assert(dates@ =~= match_dates(matches@));
    assert(flags@ =~= selected(matches@, filter@));
    rank_indices(&dates, &flags, newest_first, limit)
}

/// Tells whether any match of the history is selected by the filter.
pub fn any_match(matches: &Vec<Match>, filter: &MatchFilter) -> (found: bool)
    ensures
        found == exists|i: int| 0 <= i < matches@.len() && filter@.selects(#[trigger] matches@[i]),
{
    let n: usize = matches.len();
    let mut i: usize = 0;
    while i < n
        invariant
            n == matches.len(),
            i <= n,
            forall|j: int| 0 <= j < i ==> !filter@.selects(#[trigger] matches@[j]),
        decreases n - i,
    {
        if filter.accepts(&matches[i]) {
            return true;
        }
        i = i + 1;
    }
    false
}

/// How a match ended for one of its sides.
#[derive(Clone, Copy, Debug, PartialEq, Eq, Structural)]
pub enum SideResult {
    Won,
    Drew,
    Lost,
    /// A score is missing.
    Unknown,
}

/// How the match ended for its home side.
pub open spec fn home_result_of(m: Match) -> SideResult {
    if m.home_score is Some && m.away_score is Some {
        if m.home_score->0 > m.away_score->0 {
            SideResult::Won
        } else if m.home_score->0 == m.away_score->0 {
            SideResult::Drew
        } else {
            SideResult::Lost
        }
    } else {
        SideResult::Unknown
    }
}

/// The result of the other side.
pub open spec fn reversed(r: SideResult) -> SideResult {
    match r {
        SideResult::Won => SideResult::Lost,
        SideResult::Lost => SideResult::Won,
        other => other,
    }
}

/// How the match ended for the team `team`: the home side if the team was
/// at home, the away side otherwise.
pub open spec fn result_for(m: Match, team: Seq<char>) -> SideResult {
    if m.home_team_id@ == team {
        home_result_of(m)
    } else {
        reversed(home_result_of(m))
    }
}

/// Tells how the match ended for its home side.
pub fn home_result(m: &Match) -> (r: SideResult)
    ensures
        r == home_result_of(*m),
{
    match (m.home_score, m.away_score) {
        (Some(h), Some(a)) => if h > a {
            SideResult::Won
        } else if h == a {
            SideResult::Drew
        } else {
            SideResult::Lost
        },
        _ => SideResult::Unknown,
    }
}

/// Tells how the match ended for the team `team`.
pub fn team_result(m: &Match, team: &str) -> (r: SideResult)
    ensures
        r == result_for(*m, team@),
{
    let at_home: SideResult = home_result(m);
    if same_text(m.home_team_id.as_str(), team) {
        at_home
    } else {
        match at_home {
            SideResult::Won => SideResult::Lost,
            SideResult::Lost => SideResult::Won,
            other => other,
        }
    }
}

/// The tally of the first `n` picked meetings, seen from the team that is at
/// home now: its wins, the other team's wins, and the draws. A meeting
/// without a score is not counted.
pub open spec fn tally_upto(matches: Seq<Match>, picked: Seq<usize>, home_id: Seq<char>, n: int) -> (
    int,
    int,
    int,
)
    decreases n,
{
    if n <= 0 {
        (0, 0, 0)
    } else {
        let (h, a, d) = tally_upto(matches, picked, home_id, n - 1);
        match result_for(matches[picked[n - 1] as int], home_id) {
            SideResult::Won => (h + 1, a, d),
            SideResult::Lost => (h, a + 1, d),
            SideResult::Drew => (h, a, d + 1),
            SideResult::Unknown => (h, a, d),
        }
    }
}

/// `t` is the tally of the picked meetings.
pub open spec fn is_tally(t: Tally, matches: Seq<Match>, picked: Seq<usize>, home_id: Seq<char>) -> bool {
    (t.home_wins as int, t.away_wins as int, t.draws as int) == tally_upto(
        matches,
        picked,
        home_id,
        picked.len() as int,
    )
}

/// Counts how the picked meetings ended.
fn tally_meetings(matches: &Vec<Match>, picked: &Vec<usize>, home_id: &str) -> (t: Tally)
    requires
        picked@.len() <= 0xFFFF_FFFF,
        forall|j: int| 0 <= j < picked@.len() ==> (#[trigger] picked@[j]) < matches@.len(),
    ensures
        is_tally(t, matches@, picked@, home_id@),
        t.meetings() <= picked@.len(),
{
    let mut t: Tally = Tally { home_wins: 0, away_wins: 0, draws: 0 };
    let n: usize = picked.len();
    let mut i: usize = 0;
    while i < n
        invariant
            n == picked@.len(),
            n <= 0xFFFF_FFFF,
            i <= n,
            forall|j: int| 0 <= j < picked@.len() ==> (#[trigger] picked@[j]) < matches@.len(),
            (t.home_wins as int, t.away_wins as int, t.draws as int) == tally_upto(
                matches@,
                picked@,
                home_id@,
                i as int,
            ),
            t.meetings() <= i,
        decreases n - i,
    {
        match team_result(&matches[picked[i]], home_id) {
            SideResult::Won => {
                t.home_wins = t.home_wins + 1;
            },
            SideResult::Lost => {
                t.away_wins = t.away_wins + 1;
            },
            SideResult::Drew => {
                t.draws = t.draws + 1;
            },
            SideResult::Unknown => {},
        }
        i = i + 1;
    }
    t
}

/// `t` is the tally of the most recent meetings of two teams, at most
/// `HEAD_TO_HEAD_LIMIT` of them, seen from `home_id`.
pub open spec fn is_head_to_head(
    t: Tally,
    matches: Seq<Match>,
    home_id: Seq<char>,
    away_id: Seq<char>,
) -> bool {
    exists|picked: Seq<usize>|
        is_selection(
            matches,
            FilterView::Meetings { team: home_id, other: away_id },
            true,
            HEAD_TO_HEAD_LIMIT as int,
            picked,
        ) && #[trigger] is_tally(t, matches, picked, home_id)
}

/// Tallies the most recent meetings of two teams, at most
/// `HEAD_TO_HEAD_LIMIT` of them, whoever was at home.
pub fn head_to_head_tally(matches: &Vec<Match>, home_id: &str, away_id: &str) -> (t: Tally)
    ensures
        is_head_to_head(t, matches@, home_id@, away_id@),
        t.meetings() <= HEAD_TO_HEAD_LIMIT,
{
    let filter: MatchFilter = MatchFilter::Meetings { team: home_id, other: away_id };
    let picked: Vec<usize> = select_matches(matches, &filter, true, HEAD_TO_HEAD_LIMIT);
    tally_meetings(matches, &picked, home_id)
}

/// The weight of the match at position `i` of a form window, the most
/// recent match at position 0: each match weighs 0.85 of the more recent
/// one before it.
/// The weights are scaled to whole numbers: 17 to the `i`-th times 20 to the
/// `7 - i`-th.
pub open spec fn form_weight(i: int) -> int {
    if i <= 0 {
        1_280_000_000
    } else if i == 1 {
        1_088_000_000
    } else if i == 2 {
        924_800_000
    } else if i == 3 {
        786_080_000
    } else if i == 4 {
        668_168_000
    } else if i == 5 {
        567_942_800
    } else if i == 6 {
        482_751_380
    } else {
        410_338_673
    }
}

/// Within the form window every weight is exactly 0.85 of the one before.
pub proof fn lemma_form_weights_decay(i: int)
    requires
        0 <= i < FORM_WINDOW - 1,
    ensures
        form_weight(i + 1) * 20 == form_weight(i) * 17,
        0 < form_weight(i + 1) < form_weight(i) <= 1_280_000_000,
{
}

/// The points of one result in half points: a win earns the maximum, a draw
/// half of it where the sport has draws, and a missing score half of it; a
/// loss earns nothing, and so does a tie where the sport has no draws.
pub open spec fn half_points(r: SideResult, sport: Sport) -> int {
    match r {
        SideResult::Won => 2 * sport.spec_max_points(),
        SideResult::Drew => if sport.has_draws() {
            sport.spec_max_points()
        } else {
            0
        },
        SideResult::Unknown => sport.spec_max_points(),
        SideResult::Lost => 0,
    }
}

/// The weighted half points that the team earned in the first `n` picked
/// matches.
pub open spec fn weighted_points_upto(
    matches: Seq<Match>,
    picked: Seq<usize>,
    at_home: bool,
    sport: Sport,
    n: int,
) -> int
    decreases n,
{
    if n <= 0 {
        0
    } else {
        weighted_points_upto(matches, picked, at_home, sport, n - 1) + form_weight(n - 1)
            * half_points(venue_result(matches[picked[n - 1] as int], at_home), sport)
    }
}

/// The weighted half points that were to be had in the first `n` matches of
/// a window.
pub open spec fn weight_total_upto(sport: Sport, n: int) -> int
    decreases n,
{
    if n <= 0 {
        0
    } else {
        weight_total_upto(sport, n - 1) + form_weight(n - 1) * 2 * sport.spec_max_points()
    }
}

/// How the match ended for its home side, or for its away side.
pub open spec fn venue_result(m: Match, at_home: bool) -> SideResult {
    if at_home {
        home_result_of(m)
    } else {
        reversed(home_result_of(m))
    }
}

/// The recent form of a team at home, or away.
#[derive(Clone, Copy, Debug, PartialEq, Eq, Structural)]
pub struct RollingForm {
    /// The weighted half points earned.
    pub weighted_points: u64,
    /// The weighted half points that were to be had.
    pub weight_total: u64,
    /// The number of matches counted.
    pub sample_size: usize,
}

impl RollingForm {
    /// The form rate in billionths: the points earned over the points that
    /// were to be had, no more than one, and one half where no match was
    /// counted.
    pub open spec fn rate_of(self) -> int {
        if self.weight_total == 0 {
            500_000_000
        } else if self.weighted_points >= self.weight_total {
            PROB_ONE as int
        } else {
            share_of(self.weighted_points as int, self.weight_total as int, PROB_ONE as int)
        }
    }

    /// The form has something behind it: points earned never exceed the
    /// points that were to be had.
    pub open spec fn well_formed(self) -> bool {
        self.weighted_points <= self.weight_total
    }

    /// Whether the sample is large enough for the form to be used.
    pub open spec fn is_usable(self) -> bool {
        self.sample_size >= FORM_MIN_SAMPLE
    }

    /// Computes the form rate in billionths.
    pub fn rate(&self) -> (r: u32)
        ensures
            r == self.rate_of(),
            r <= PROB_ONE,
    {
        if self.weight_total == 0 {
            500_000_000
        } else if self.weighted_points >= self.weight_total {
            PROB_ONE
        } else {
            share(self.weighted_points, self.weight_total, PROB_ONE as u64) as u32
        }
    }

    /// Tells whether the sample is large enough for the form to be used.
    pub fn usable(&self) -> (b: bool)
        ensures
            b == self.is_usable(),
    {
        self.sample_size >= FORM_MIN_SAMPLE
    }
}

/// `form` is the form that the picked matches give.
pub open spec fn is_form(
    form: RollingForm,
    matches: Seq<Match>,
    picked: Seq<usize>,
    at_home: bool,
    sport: Sport,
) -> bool {
    &&& form.sample_size == picked.len()
    &&& form.weighted_points == weighted_points_upto(
        matches,
        picked,
        at_home,
        sport,
        picked.len() as int,
    )
    &&& form.weight_total == weight_total_upto(sport, picked.len() as int)
}

/// The weights of a form window, looked up by position.
fn weight_at(i: usize) -> (w: u64)
    requires
        i < FORM_WINDOW,
    ensures
        w == form_weight(i as int),
        0 < w <= 1_280_000_000,
{
    if i == 0 {
        1_280_000_000
    } else if i == 1 {
        1_088_000_000
    } else if i == 2 {
        924_800_000
    } else if i == 3 {
        786_080_000
    } else if i == 4 {
        668_168_000
    } else if i == 5 {
        567_942_800
    } else if i == 6 {
        482_751_380
    } else {
        410_338_673
    }
}

/// Computes the form that a window of picked matches gives, the most recent
/// match first.
fn form_of_window(
    matches: &Vec<Match>,
    picked: &Vec<usize>,
    at_home: bool,
    sport: Sport,
) -> (form: RollingForm)
    requires
        picked@.len() <= FORM_WINDOW,
        forall|j: int| 0 <= j < picked@.len() ==> (#[trigger] picked@[j]) < matches@.len(),
    ensures
        is_form(form, matches@, picked@, at_home, sport),
        form.well_formed(),
        form.sample_size > 0 ==> form.weight_total > 0,
{
    let max_points: u64 = sport.max_points();
    let mut earned: u64 = 0;
    let mut possible: u64 = 0;
    let n: usize = picked.len();
    let mut i: usize = 0;
    while i < n
        invariant
            n == picked@.len(),
            n <= FORM_WINDOW,
            i <= n,
            max_points == sport.spec_max_points(),
            forall|j: int| 0 <= j < picked@.len() ==> (#[trigger] picked@[j]) < matches@.len(),
            earned == weighted_points_upto(matches@, picked@, at_home, sport, i as int),
            possible == weight_total_upto(sport, i as int),
            earned <= possible <= i * 7_680_000_000,
            i > 0 ==> possible > 0,
        decreases n - i,
    {
        let w: u64 = weight_at(i);
        let at_home_result: SideResult = home_result(&matches[picked[i]]);
        let r: SideResult = if at_home {
            at_home_result
        } else {
            match at_home_result {
                SideResult::Won => SideResult::Lost,
                SideResult::Lost => SideResult::Won,
                other => other,
            }
        };
        let halves: u64 = match r {
            SideResult::Won => 2 * max_points,
            SideResult::Drew => if sport.draw_capable() {
                max_points
            } else {
                0
            },
            SideResult::Unknown => max_points,
            SideResult::Lost => 0,
        };
        assert(halves == half_points(venue_result(matches@[picked@[i as int] as int], at_home), sport));
        assert(w * halves <= w * (2 * max_points) <= 7_680_000_000) by (nonlinear_arith)
            requires
                0 <= halves <= 2 * max_points,
                max_points <= 3,
                0 < w <= 1_280_000_000,
        ;
        assert(w * (2 * max_points) == w * 2 * max_points) by (nonlinear_arith);
        assert(w * (2 * max_points) > 0) by (nonlinear_arith)
            requires
                w > 0,
                max_points >= 1,
        ;
        earned = earned + w * halves;
        possible = possible + w * (2 * max_points);
        i = i + 1;
    }
    RollingForm { weighted_points: earned, weight_total: possible, sample_size: n }
}

/// `form` is the recent form of a team at home, or away: that of its most
/// recent finished matches of the sport in that setting, at most
/// `FORM_WINDOW` of them.
pub open spec fn is_rolling_form(
    form: RollingForm,
    matches: Seq<Match>,
    team: Seq<char>,
    at_home: bool,
    sport: Sport,
) -> bool {
    exists|picked: Seq<usize>|
        is_selection(
            matches,
            FilterView::Venue { team, at_home, sport },
            true,
            FORM_WINDOW as int,
            picked,
        ) && #[trigger] is_form(form, matches, picked, at_home, sport)
}

/// Computes the recent form of a team at home, or away: over its most
/// recent finished matches of the sport in that setting, at most
/// `FORM_WINDOW` of them, the most recent weighing most.
pub fn rolling_form(matches: &Vec<Match>, team: &str, at_home: bool, sport: Sport) -> (form:
    RollingForm)
    ensures
        is_rolling_form(form, matches@, team@, at_home, sport),
        form.well_formed(),
        form.sample_size <= FORM_WINDOW,
        form.sample_size > 0 ==> form.weight_total > 0,
{
    let filter: MatchFilter = MatchFilter::Venue { team, at_home, sport };
    let picked: Vec<usize> = select_matches(matches, &filter, true, FORM_WINDOW);
    form_of_window(matches, &picked, at_home, sport)
}

/// The rest that a team has had before a kick-off, given its last match:
/// the whole days since that match, less one, no less than zero and no more
/// than `REST_CAP`.
pub open spec fn rest_after(last_match: int, kick_off: int) -> int {
    let days = whole_days(last_match, kick_off);
    if days <= 1 {
        0
    } else if days - 1 > REST_CAP {
        REST_CAP as int
    } else {
        days - 1
    }
}

/// Computes the rest between a team's last match and a kick-off.
pub fn rest_between(last_match: i64, kick_off: i64) -> (rest: u32)
    ensures
        rest == rest_after(last_match as int, kick_off as int),
        rest <= REST_CAP,
{
    let days: i64 = days_between(last_match, kick_off);
    if days <= 1 {
        0
    } else if days - 1 > REST_CAP as i64 {
        REST_CAP
    } else {
        (days - 1) as u32
    }
}

/// `rest` is the rest of a team before a kick-off: the rest since its last
/// finished match before that kick-off, and nothing where there is no such
/// match.
pub open spec fn is_days_rest(
    rest: Option<u32>,
    matches: Seq<Match>,
    team: Seq<char>,
    kick_off: i64,
) -> bool {
    exists|picked: Seq<usize>|
        #[trigger] is_selection(
            matches,
            FilterView::Before { team, instant: kick_off },
            true,
            1,
            picked,
        ) && (if picked.len() == 0 {
            rest is None
        } else {
            rest == Some(
                rest_after(matches[picked[0] as int].match_date as int, kick_off as int) as u32,
            )
        })
}

/// Computes the days of rest that a team has before a kick-off: the rest
/// since its last finished match before that kick-off, and nothing where
/// it has played no such match.
pub fn days_rest(matches: &Vec<Match>, team: &str, kick_off: i64) -> (rest: Option<u32>)
    ensures
        is_days_rest(rest, matches@, team@, kick_off),
        rest is Some ==> rest->0 <= REST_CAP,
{
    let filter: MatchFilter = MatchFilter::Before { team, instant: kick_off };
    let picked: Vec<usize> = select_matches(matches, &filter, true, 1);
    if picked.len() == 0 {
        None
    } else {
        Some(rest_between(matches[picked[0]].match_date, kick_off))
    }
}

/// The record of a team over a season.
#[derive(Clone, Copy, Debug, PartialEq, Eq, Structural)]
pub struct SeasonRecord {
    pub matches_played: u64,
    pub wins: u64,
    /// Always zero where the sport has no draws.
    pub draws: u64,
    pub losses: u64,
    /// Goals or points scored.
    pub scored: i128,
    /// Goals or points conceded.
    pub conceded: i128,
}

/// The team's own score in a match, if it took part and the score is known.
pub open spec fn own_score(m: Match, team: Seq<char>) -> Option<i32> {
    if m.home_team_id@ == team {
        m.home_score
    } else if m.away_team_id@ == team {
        m.away_score
    } else {
        None
    }
}

/// The score of the team's opponent in a match, if the team took part and
/// the score is known.
pub open spec fn opposing_score(m: Match, team: Seq<char>) -> Option<i32> {
    if m.home_team_id@ == team {
        m.away_score
    } else if m.away_team_id@ == team {
        m.home_score
    } else {
        None
    }
}

/// The match counts toward the season record of the team: it is a
/// finished match of the sport in which the team's own score is known.
pub open spec fn counts_for(m: Match, team: Seq<char>, sport: Sport) -> bool {
    m.status == MatchStatus::Finished && m.sport == sport && own_score(m, team) is Some
}

/// The empty record.
pub open spec fn no_record() -> SeasonRecord {
    SeasonRecord { matches_played: 0, wins: 0, draws: 0, losses: 0, scored: 0, conceded: 0 }
}

/// A record with one more match in it. A match whose opposing score is not
/// known is played, but neither won nor drawn nor lost; a level score is a
/// draw only where the sport has draws.
pub open spec fn with_match(r: SeasonRecord, m: Match, team: Seq<char>, sport: Sport) -> SeasonRecord {
    let own = own_score(m, team)->0 as int;
    let other = opposing_score(m, team);
    let decided = other is Some;
    SeasonRecord {
        matches_played: (r.matches_played + 1) as u64,
        wins: (r.wins + if decided && own > other->0 {
            1int
        } else {
            0int
        }) as u64,
        draws: (r.draws + if decided && own == other->0 && sport.has_draws() {
            1int
        } else {
            0int
        }) as u64,
        losses: (r.losses + if decided && own < other->0 {
            1int
        } else {
            0int
        }) as u64,
        scored: (r.scored + own) as i128,
        conceded: (r.conceded + if decided {
            other->0 as int
        } else {
            0int
        }) as i128,
    }
}

/// The season record of a team over the first `n` matches of a list.
pub open spec fn record_upto(matches: Seq<Match>, team: Seq<char>, sport: Sport, n: int) -> SeasonRecord
    decreases n,
{
    if n <= 0 {
        no_record()
    } else {
        let before = record_upto(matches, team, sport, n - 1);
        if counts_for(matches[n - 1], team, sport) {
            with_match(before, matches[n - 1], team, sport)
        } else {
            before
        }
    }
}

/// The counts of a record are bounded by the number of matches, and its
/// sums by that number times the range of a score.
proof fn lemma_record_bounds(matches: Seq<Match>, team: Seq<char>, sport: Sport, n: int)
    requires
        0 <= n <= matches.len(),
    ensures
        ({
            let r = record_upto(matches, team, sport, n);
            &&& r.matches_played <= n
            &&& r.wins <= n
            &&& r.draws <= n
            &&& r.losses <= n
            &&& -0x8000_0000 * n <= r.scored <= 0x8000_0000 * n
            &&& -0x8000_0000 * n <= r.conceded <= 0x8000_0000 * n
        }),
    decreases n,
{
    if n > 0 {
        lemma_record_bounds(matches, team, sport, n - 1);
    }
}

/// Computes the season record of a team in a sport: its matches, wins,
/// draws and losses, and what it scored and conceded, at home and away.
pub fn season_record(matches: &Vec<Match>, team: &str, sport: Sport) -> (r: SeasonRecord)
    ensures
        r == record_upto(matches@, team@, sport, matches@.len() as int),
{
    let mut r: SeasonRecord = SeasonRecord {
        matches_played: 0,
        wins: 0,
        draws: 0,
        losses: 0,
        scored: 0,
        conceded: 0,
    };
    let n: usize = matches.len();
    let mut i: usize = 0;
    while i < n
        invariant
            n == matches@.len(),
            i <= n,
            r == record_upto(matches@, team@, sport, i as int),
        decreases n - i,
    {
        proof {
            lemma_record_bounds(matches@, team@, sport, i as int);
            lemma_record_bounds(matches@, team@, sport, i + 1);
        }
        let m: &Match = &matches[i];
        if m.status == MatchStatus::Finished && m.sport == sport {
            let at_home: bool = same_text(m.home_team_id.as_str(), team);
            let away: bool = same_text(m.away_team_id.as_str(), team);
            let (own, other): (Option<i32>, Option<i32>) = if at_home {
                (m.home_score, m.away_score)
            } else if away {
                (m.away_score, m.home_score)
            } else {
                (None, None)
            };
            match own {
                Some(scored) => {
                    r.matches_played = r.matches_played + 1;
                    r.scored = r.scored + scored as i128;
                    match other {
                        Some(conceded) => {
                            r.conceded = r.conceded + conceded as i128;
                            if scored > conceded {
                                r.wins = r.wins + 1;
                            } else if scored < conceded {
                                r.losses = r.losses + 1;
                            } else if sport.draw_capable() {
                                r.draws = r.draws + 1;
                            }
                        },
                        None => {},
                    }
                },
                None => {},
            }
        }
        i = i + 1;
    }
    r
}

/// The letter of a result in a form string: `W` for a win, `L` for a loss
/// and `D` for a draw; where the sport has no draws a level score counts
/// as a loss, and so does a match whose score is not fully known.
pub open spec fn form_letter(r: SideResult, sport: Sport) -> char {
    match r {
        SideResult::Won => 'W',
        SideResult::Lost => 'L',
        SideResult::Drew => if sport.has_draws() {
            'D'
        } else {
            'L'
        },
        SideResult::Unknown => 'L',
    }
}

/// How many results the recent form of a team shows.
pub const RECENT_FORM_LENGTH: usize = 5;

/// `form` is the recent form of a team: the letters of its most recent
/// finished matches, the most recent first, at most `RECENT_FORM_LENGTH`.
pub open spec fn is_recent_form(form: Seq<char>, matches: Seq<Match>, team: Seq<char>, sport: Sport) -> bool {
    exists|picked: Seq<usize>|
        #![trigger is_selection(matches, FilterView::Played { team }, true, RECENT_FORM_LENGTH as int, picked)]
        is_selection(matches, FilterView::Played { team }, true, RECENT_FORM_LENGTH as int, picked)
            && form.len() == picked.len() && forall|j: int|
            0 <= j < picked.len() ==> #[trigger] form[j] == form_letter(
                result_for(matches[picked[j] as int], team),
                sport,
            )
}

/// Writes the recent form of a team, such as `WWDLW`.
pub fn recent_form(matches: &Vec<Match>, team: &str, sport: Sport) -> (form: String)
    ensures
        is_recent_form(form@, matches@, team@, sport),
        form@.len() <= RECENT_FORM_LENGTH,
{
    let filter: MatchFilter = MatchFilter::Played { team };
    let picked: Vec<usize> = select_matches(matches, &filter, true, RECENT_FORM_LENGTH);
    let mut form: String = String::new();
    let n: usize = picked.len();
    let mut j: usize = 0;
    while j < n
        invariant
            n == picked@.len(),
            j <= n,
            forall|t: int| 0 <= t < picked@.len() ==> (#[trigger] picked@[t]) < matches@.len(),
            form@.len() == j,
            forall|t: int|
                0 <= t < j ==> #[trigger] form@[t] == form_letter(
                    result_for(matches@[picked@[t] as int], team@),
                    sport,
                ),
        decreases n - j,
    {
        let letter: char = match team_result(&matches[picked[j]], team) {
            SideResult::Won => 'W',
            SideResult::Lost => 'L',
            SideResult::Drew => if sport.draw_capable() {
                'D'
            } else {
                'L'
            },
            SideResult::Unknown => 'L',
        };
        push_char(&mut form, letter);
        j = j + 1;
    }
    form
}

/// `stats` holds the season of a team: its record, with goals where the
/// sport has draws and points where it has none, and its recent form.
pub open spec fn is_team_stats(
    stats: TeamStats,
    matches: Seq<Match>,
    team: Seq<char>,
    sport: Sport,
    id: Seq<char>,
    season: Seq<char>,
    now: i64,
) -> bool {
    let record = record_upto(matches, team, sport, matches.len() as int);
    &&& stats.id@ == id
    &&& stats.team_id@ == team
    &&& stats.season@ == season
    &&& stats.matches_played == record.matches_played
    &&& stats.wins == record.wins
    &&& stats.losses == record.losses
    &&& stats.draws == if sport.has_draws() {
        Some(record.draws)
    } else {
        None
    }
    &&& stats.goals_for == if sport.has_draws() {
        Some(record.scored)
    } else {
        None
    }
    &&& stats.goals_against == if sport.has_draws() {
        Some(record.conceded)
    } else {
        None
    }
    &&& stats.points_for == if sport.has_draws() {
        None
    } else {
        Some(record.scored)
    }
    &&& stats.points_against == if sport.has_draws() {
        None
    } else {
        Some(record.conceded)
    }
    &&& is_recent_form(stats.form@, matches, team, sport)
    &&& stats.updated_at == now
}

/// Computes the season of a team from the matches, to be stored under the
/// given id.
pub fn compute_team_stats(
    matches: &Vec<Match>,
    team: &str,
    sport: Sport,
    id: String,
    season: &str,
    now: i64,
) -> (stats: TeamStats)
    ensures
        is_team_stats(stats, matches@, team@, sport, id@, season@, now),
{
    let record: SeasonRecord = season_record(matches, team, sport);
    let football: bool = sport.draw_capable();
    TeamStats {
        id,
        team_id: String::from_str(team),
        season: String::from_str(season),
        matches_played: record.matches_played,
        wins: record.wins,
        draws: if football {
            Some(record.draws)
        } else {
            None
        },
        losses: record.losses,
        goals_for: if football {
            Some(record.scored)
        } else {
            None
        },
        goals_against: if football {
            Some(record.conceded)
        } else {
            None
        },
        points_for: if football {
            None
        } else {
            Some(record.scored)
        },
        points_against: if football {
            None
        } else {
            Some(record.conceded)
        },
        form: recent_form(matches, team, sport),
        updated_at: now,
    }
}

} // verus!
