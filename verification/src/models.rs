//! The records of the engine: teams, matches, forecasts, quotes.
//!
//! Instants are seconds since the Unix epoch, ratings are millionths of a
//! rating point, probabilities are billionths and decimal odds thousandths.

use crate::text::same_text;
use vstd::prelude::*;
use vstd::string::*;

verus! {

/// The sports the engine knows how to score.
#[derive(Clone, Copy, Debug, PartialEq, Eq, Structural)]
pub enum Sport {
    /// Association football: a match may end in a draw, a win earns 3 points.
    Football,
    /// Basketball: no draws.
    Basketball,
    /// Any other sport, scored as a two-way contest.
    Other,
}

impl Sport {
    /// The sport that a name stands for.
    pub open spec fn of_name(name: Seq<char>) -> Sport {
        if name == "football"@ {
            Sport::Football
        } else if name == "basketball"@ {
            Sport::Basketball
        } else {
            Sport::Other
        }
    }

    /// Reads a sport from its name; a name that is not known is `Other`.
    pub fn from_name(name: &str) -> (s: Sport)
        ensures
            s == Sport::of_name(name@),
    {
        if same_text(name, "football") {
            Sport::Football
        } else if same_text(name, "basketball") {
            Sport::Basketball
        } else {
            Sport::Other
        }
    }

    /// The name under which the sport is stored.
    pub open spec fn spec_name(self) -> Seq<char> {
        match self {
            Sport::Football => "football"@,
            Sport::Basketball => "basketball"@,
            Sport::Other => "other"@,
        }
    }

    /// The name under which the sport is stored.
    pub fn name(self) -> (s: &'static str)
        ensures
            s@ == self.spec_name(),
            Sport::of_name(s@) == self,
    {
        proof {
            reveal_strlit("football");
            reveal_strlit("basketball");
            reveal_strlit("other");
            assert("football"@.len() == 8 && "basketball"@.len() == 10 && "other"@.len() == 5);
        }
        match self {
            Sport::Football => "football",
            Sport::Basketball => "basketball",
            Sport::Other => "other",
        }
    }

    /// Whether a match of this sport can end in a draw.
    pub open spec fn has_draws(self) -> bool {
        self == Sport::Football
    }

    /// Whether a match of this sport can end in a draw.
    pub fn draw_capable(self) -> (b: bool)
        ensures
            b == self.has_draws(),
    {
        match self {
            Sport::Football => true,
            _ => false,
        }
    }

    /// The points a win is worth: 3 where draws exist, else 1.
    pub open spec fn spec_max_points(self) -> int {
        if self.has_draws() {
            3
        } else {
            1
        }
    }

    /// The points a win is worth: 3 where draws exist, else 1.
    pub fn max_points(self) -> (p: u64)
        ensures
            p == self.spec_max_points(),
    {
        if self.draw_capable() {
            3
        } else {
            1
        }
    }
}

/// Where a match stands.
#[derive(Clone, Copy, Debug, PartialEq, Eq, Structural)]
pub enum MatchStatus {
    Scheduled,
    Live,
    Finished,
}

impl MatchStatus {
    /// The status that a stored name stands for, if any.
    pub open spec fn of_name(name: Seq<char>) -> Option<MatchStatus> {
        if name == "scheduled"@ {
            Some(MatchStatus::Scheduled)
        } else if name == "live"@ {
            Some(MatchStatus::Live)
        } else if name == "finished"@ {
            Some(MatchStatus::Finished)
        } else {
            None
        }
    }

    /// Reads a status from its stored name.
    pub fn from_name(name: &str) -> (s: Option<MatchStatus>)
        ensures
            s == MatchStatus::of_name(name@),
    {
        if same_text(name, "scheduled") {
            Some(MatchStatus::Scheduled)
        } else if same_text(name, "live") {
            Some(MatchStatus::Live)
        } else if same_text(name, "finished") {
            Some(MatchStatus::Finished)
        } else {
            None
        }
    }

    /// The name under which the status is stored.
    pub open spec fn spec_name(self) -> Seq<char> {
        match self {
            MatchStatus::Scheduled => "scheduled"@,
            MatchStatus::Live => "live"@,
            MatchStatus::Finished => "finished"@,
        }
    }

    /// The name under which the status is stored.
    pub fn name(self) -> (s: &'static str)
        ensures
            s@ == self.spec_name(),
            MatchStatus::of_name(s@) == Some(self),
    {
        proof {
            reveal_strlit("scheduled");
            reveal_strlit("live");
            reveal_strlit("finished");
            assert("scheduled"@.len() == 9 && "live"@.len() == 4 && "finished"@.len() == 8);
        }
        match self {
            MatchStatus::Scheduled => "scheduled",
            MatchStatus::Live => "live",
            MatchStatus::Finished => "finished",
        }
    }

    /// Whether a match may move from this status to `next`: forward only,
    /// from scheduled over live to finished, or straight to finished.
    pub open spec fn may_become(self, next: MatchStatus) -> bool {
        match (self, next) {
            (MatchStatus::Scheduled, _) => true,
            (MatchStatus::Live, MatchStatus::Live) => true,
            (MatchStatus::Live, MatchStatus::Finished) => true,
            (MatchStatus::Finished, MatchStatus::Finished) => true,
            _ => false,
        }
    }

    /// Whether a match may move from this status to `next`.
    pub fn can_become(self, next: MatchStatus) -> (b: bool)
        ensures
            b == self.may_become(next),
    {
        match (self, next) {
            (MatchStatus::Scheduled, _) => true,
            (MatchStatus::Live, MatchStatus::Live) => true,
            (MatchStatus::Live, MatchStatus::Finished) => true,
            (MatchStatus::Finished, MatchStatus::Finished) => true,
            _ => false,
        }
    }
}

/// A team and its current rating.
#[derive(Clone, Debug)]
pub struct Team {
    pub id: String,
    pub name: String,
    pub sport: Sport,
    pub league: String,
    pub logo_url: Option<String>,
    /// Millionths of a rating point.
    pub elo_rating: i64,
}

/// A fixture or a result.
#[derive(Clone, Debug)]
pub struct Match {
    pub id: String,
    pub home_team_id: String,
    pub away_team_id: String,
    pub home_team_name: String,
    pub away_team_name: String,
    pub sport: Sport,
    pub league: String,
    /// Kick-off, in seconds since the epoch.
    pub match_date: i64,
    pub status: MatchStatus,
    pub home_score: Option<i32>,
    pub away_score: Option<i32>,
}

impl Match {
    /// The match is over and both scores are known.
    pub open spec fn is_result(self) -> bool {
        self.status == MatchStatus::Finished && self.home_score is Some && self.away_score is Some
    }

    /// Tells whether the match is over and both scores are known.
    pub fn has_result(&self) -> (b: bool)
        ensures
            b == self.is_result(),
    {
        self.status == MatchStatus::Finished && self.home_score.is_some()
            && self.away_score.is_some()
    }

    /// The record holds what its status allows: scores only once the match
    /// is finished.
    pub open spec fn well_formed(self) -> bool {
        self.status != MatchStatus::Finished ==> self.home_score is None && self.away_score is None
    }
}

/// A forecast for one match. The three probabilities sum to one.
#[derive(Clone, Debug)]
pub struct Prediction {
    pub id: String,
    pub match_id: String,
    /// Billionths.
    pub home_win_probability: u32,
    /// Billionths.
    pub away_win_probability: u32,
    /// Billionths; absent where the sport has no draws.
    pub draw_probability: Option<u32>,
    pub model_version: String,
    /// Billionths.
    pub confidence_score: u32,
    /// Seconds since the epoch.
    pub created_at: i64,
}

impl Prediction {
    /// The draw probability, or zero where there is none.
    pub open spec fn draw_or_zero(self) -> int {
        match self.draw_probability {
            Some(d) => d as int,
            None => 0,
        }
    }

    /// The probabilities of the outcomes sum to one.
    pub open spec fn is_closed(self) -> bool {
        self.home_win_probability + self.away_win_probability + self.draw_or_zero()
            == crate::units::PROB_ONE
    }
}

/// The best quote on offer for one match.
#[derive(Clone, Debug)]
pub struct MarketOdds {
    pub match_id: String,
    pub bookmaker: String,
    /// Thousandths.
    pub home_odds: u32,
    /// Thousandths; absent in a two-way market.
    pub draw_odds: Option<u32>,
    /// Thousandths.
    pub away_odds: u32,
    /// Seconds since the epoch.
    pub fetched_at: i64,
}

/// One point of a team's rating trajectory: its rating after a replayed
/// match.
#[derive(Clone, Debug)]
pub struct EloHistoryPoint {
    pub team_id: String,
    /// Seconds since the epoch.
    pub date: i64,
    /// Millionths of a rating point.
    pub elo_rating: i64,
    pub match_id: Option<String>,
}

/// A match on which the forecast beats the market by more than the threshold.
#[derive(Clone, Debug)]
pub struct Edge {
    pub match_id: String,
    /// The row of the match among the upcoming matches that were scanned.
    pub match_index: usize,
    /// The row of its forecast among the forecasts that were scanned.
    pub prediction_index: usize,
    /// The row of its quote among the quotes that were scanned.
    pub quote_index: usize,
    /// Thousandths.
    pub market_home_odds: u32,
    /// Thousandths.
    pub market_away_odds: u32,
    /// Thousandths.
    pub market_draw_odds: Option<u32>,
    /// The largest edge over the outcomes, in billionths.
    pub edge_value: i64,
    pub is_live_odds: bool,
    pub bookmaker: Option<String>,
    /// Seconds since the epoch.
    pub odds_fetched_at: Option<i64>,
}

/// The season of a team in numbers, and its recent form.
#[derive(Clone, Debug)]
pub struct TeamStats {
    pub id: String,
    pub team_id: String,
    pub season: String,
    pub matches_played: u64,
    pub wins: u64,
    /// Absent where the sport has no draws.
    pub draws: Option<u64>,
    pub losses: u64,
    /// Goals scored, where the sport counts goals.
    pub goals_for: Option<i128>,
    /// Goals conceded, where the sport counts goals.
    pub goals_against: Option<i128>,
    /// Points scored, where the sport counts points.
    pub points_for: Option<i128>,
    /// Points conceded, where the sport counts points.
    pub points_against: Option<i128>,
    /// The latest results, the most recent first, such as `WWDLW`.
    pub form: String,
    /// Seconds since the epoch.
    pub updated_at: i64,
}

/// When a source was last fetched with success.
#[derive(Clone, Debug)]
pub struct FetchCursor {
    pub source_key: String,
    /// Seconds since the epoch.
    pub last_fetched: i64,
}

} // verus!
