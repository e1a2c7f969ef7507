//! The records of the two data providers, and how each becomes a team or a
//! match of the engine.

use crate::dates::{parse_rfc3339, rfc3339_seconds};
use crate::models::{Match, MatchStatus, Sport, Team};
use crate::text::{
    append_decimal, decimal_numeral, has_substring, is_substring, lowercase, lowercase_of,
    same_text, trim, trimmed,
};
use crate::units::BASELINE_RATING;
use vstd::prelude::*;
use vstd::string::*;

verus! {

/// The list of teams of a football competition.
#[derive(Debug)]
pub struct FootballDataTeams {
    pub teams: Vec<FootballTeam>,
}

/// A football team as its provider describes it.
#[derive(Debug)]
pub struct FootballTeam {
    pub id: u32,
    pub name: String,
    pub crest: Option<String>,
}

/// The list of matches of a football competition.
#[derive(Debug)]
pub struct FootballDataMatches {
    pub matches: Vec<FootballMatch>,
}

/// A football match as its provider describes it.
#[derive(Debug)]
pub struct FootballMatch {
    pub id: u32,
    pub utc_date: String,
    pub status: String,
    pub home_team: MatchTeam,
    pub away_team: MatchTeam,
    pub score: MatchScore,
}

/// A side of a football match.
#[derive(Debug)]
pub struct MatchTeam {
    pub id: u32,
    pub name: String,
}

/// The score of a football match, once there is one.
#[derive(Debug)]
pub struct MatchScore {
    pub full_time: Option<Score>,
}

/// Goals of the two sides.
#[derive(Debug, Clone)]
pub struct Score {
    pub home: Option<u32>,
    pub away: Option<u32>,
}

/// Where the next page of a basketball listing starts.
#[derive(Debug)]
pub struct NbaMeta {
    pub next_cursor: Option<u64>,
}

/// A page of basketball teams.
#[derive(Debug)]
pub struct NbaTeamsResponse {
    pub data: Vec<NbaTeam>,
    pub meta: Option<NbaMeta>,
}

/// A basketball team as its provider describes it.
#[derive(Debug)]
pub struct NbaTeam {
    pub id: u32,
    pub full_name: String,
}

/// A page of basketball games.
#[derive(Debug)]
pub struct NbaGamesResponse {
    pub data: Vec<NbaGame>,
    pub meta: Option<NbaMeta>,
}

/// A basketball game as its provider describes it.
#[derive(Debug)]
pub struct NbaGame {
    pub id: u32,
    pub date: String,
    pub home_team: NbaTeam,
    pub visitor_team: NbaTeam,
    pub home_team_score: Option<u32>,
    pub visitor_team_score: Option<u32>,
    pub status: String,
}

/// A provider's number behind the provider's prefix: `epl_57`, `nba_14`.
pub open spec fn prefixed_id(prefix: Seq<char>, number: u32) -> Seq<char> {
    prefix + decimal_numeral(number as nat)
}

/// Writes a provider's number behind the provider's prefix.
pub fn make_id(prefix: &str, number: u32) -> (id: String)
    ensures
        id@ == prefixed_id(prefix@, number),
{
    let mut id: String = String::from_str(prefix);
    append_decimal(&mut id, number as u64);
    id
}

/// A provider's score as the engine holds it; a score beyond the range of
/// the engine's scores is held at the top of that range.
pub open spec fn held_score(score: u32) -> i32 {
    if score > i32::MAX {
        i32::MAX
    } else {
        score as i32
    }
}

/// Converts a provider's score.
pub fn convert_score(score: u32) -> (s: i32)
    ensures
        s == held_score(score),
{
    if score > 0x7fff_ffff {
        0x7fff_ffff
    } else {
        score as i32
    }
}

/// The status that the football provider's word stands for: `FINISHED` is
/// finished, `IN_PLAY` and `PAUSED` are live, and every other word
/// (scheduled, timed, postponed) is scheduled.
pub open spec fn football_status_of(word: Seq<char>) -> MatchStatus {
    if word == "FINISHED"@ {
        MatchStatus::Finished
    } else if word == "IN_PLAY"@ || word == "PAUSED"@ {
        MatchStatus::Live
    } else {
        MatchStatus::Scheduled
    }
}

/// Reads the football provider's status word.
pub fn football_status(word: &str) -> (status: MatchStatus)
    ensures
        status == football_status_of(word@),
{
    if same_text(word, "FINISHED") {
        MatchStatus::Finished
    } else if same_text(word, "IN_PLAY") || same_text(word, "PAUSED") {
        MatchStatus::Live
    } else {
        MatchStatus::Scheduled
    }
}

/// The home or away goals of a football score, if the provider gave them.
pub open spec fn goals_of(score: MatchScore, home: bool) -> Option<u32> {
    match score.full_time {
        Some(s) => if home {
            s.home
        } else {
            s.away
        },
        None => None,
    }
}

/// The score that a match of status `status` holds for goals `goals`: the
/// goals once the match is finished, nothing before.
pub open spec fn score_when(status: MatchStatus, goals: Option<u32>) -> Option<i32> {
    match goals {
        Some(g) => if status == MatchStatus::Finished {
            Some(held_score(g))
        } else {
            None
        },
        None => None,
    }
}

/// `m` is the engine's record of the football match `source` that kicks off
/// at `date`.
pub open spec fn is_football_record(m: Match, source: FootballMatch, date: i64) -> bool {
    &&& m.id@ == prefixed_id("epl_"@, source.id)
    &&& m.home_team_id@ == prefixed_id("epl_"@, source.home_team.id)
    &&& m.away_team_id@ == prefixed_id("epl_"@, source.away_team.id)
    &&& m.home_team_name@ == source.home_team.name@
    &&& m.away_team_name@ == source.away_team.name@
    &&& m.sport == Sport::Football
    &&& m.league@ == "EPL"@
    &&& m.match_date == date
    &&& m.status == football_status_of(source.status@)
    &&& m.home_score == score_when(m.status, goals_of(source.score, true))
    &&& m.away_score == score_when(m.status, goals_of(source.score, false))
}

/// Picks the home or away goals out of a football score.
fn goals(score: &MatchScore, home: bool) -> (g: Option<u32>)
    ensures
        g == goals_of(*score, home),
{
    match &score.full_time {
        Some(s) => if home {
            s.home
        } else {
            s.away
        },
        None => None,
    }
}

/// Holds goals as a score once the match is finished.
fn score_for(status: MatchStatus, goals: Option<u32>) -> (s: Option<i32>)
    ensures
        s == score_when(status, goals),
{
    match goals {
        Some(g) => if status == MatchStatus::Finished {
            Some(convert_score(g))
        } else {
            None
        },
        None => None,
    }
}

/// Builds the engine's record of a football match whose kick-off was read
/// as `date`. A match without a readable kick-off has no record.
pub fn football_match_record(source: &FootballMatch, date: Option<i64>) -> (r: Option<Match>)
    ensures
        date is None ==> r is None,
        date is Some ==> r is Some && is_football_record(r->0, *source, date->0),
        r is Some ==> (r->0).well_formed(),
{
    match date {
        None => None,
        Some(d) => {
            let status: MatchStatus = football_status(source.status.as_str());
            Some(
                Match {
                    id: make_id("epl_", source.id),
                    home_team_id: make_id("epl_", source.home_team.id),
                    away_team_id: make_id("epl_", source.away_team.id),
                    home_team_name: source.home_team.name.clone(),
                    away_team_name: source.away_team.name.clone(),
                    sport: Sport::Football,
                    league: String::from_str("EPL"),
                    match_date: d,
                    status,
                    home_score: score_for(status, goals(&source.score, true)),
                    away_score: score_for(status, goals(&source.score, false)),
                },
            )
        },
    }
}

/// Converts a football match of the provider. The kick-off is read as an
/// RFC 3339 date; a match whose kick-off cannot be read is dropped.
pub fn football_match_to_match(source: &FootballMatch) -> (r: Option<Match>)
    ensures
        rfc3339_seconds(source.utc_date@) is None ==> r is None,
        rfc3339_seconds(source.utc_date@) is Some ==> r is Some && is_football_record(
            r->0,
            *source,
            rfc3339_seconds(source.utc_date@)->0,
        ),
        r is Some ==> (r->0).well_formed(),
{
    let date: Option<i64> = parse_rfc3339(source.utc_date.as_str());
    football_match_record(source, date)
}

/// `t` is the engine's record of a provider's team: a new team starts at the
/// baseline rating.
pub open spec fn is_team_record(
    t: Team,
    prefix: Seq<char>,
    number: u32,
    name: Seq<char>,
    sport: Sport,
    league: Seq<char>,
) -> bool {
    &&& t.id@ == prefixed_id(prefix, number)
    &&& t.name@ == name
    &&& t.sport == sport
    &&& t.league@ == league
    &&& t.elo_rating == BASELINE_RATING
}

/// Converts a football team of the provider.
pub fn football_team_to_team(source: &FootballTeam) -> (t: Team)
    ensures
        is_team_record(t, "epl_"@, source.id, source.name@, Sport::Football, "EPL"@),
        t.logo_url is Some <==> source.crest is Some,
        t.logo_url is Some ==> (t.logo_url->0)@ == (source.crest->0)@,
{
    let logo: Option<String> = match &source.crest {
        Some(c) => Some(c.clone()),
        None => None,
    };
    Team {
        id: make_id("epl_", source.id),
        name: source.name.clone(),
        sport: Sport::Football,
        league: String::from_str("EPL"),
        logo_url: logo,
        elo_rating: BASELINE_RATING,
    }
}

/// Converts a basketball team of the provider.
pub fn nba_team_to_team(source: &NbaTeam) -> (t: Team)
    ensures
        is_team_record(t, "nba_"@, source.id, source.full_name@, Sport::Basketball, "NBA"@),
        t.logo_url is None,
{
    Team {
        id: make_id("nba_", source.id),
        name: source.full_name.clone(),
        sport: Sport::Basketball,
        league: String::from_str("NBA"),
        logo_url: None,
        elo_rating: BASELINE_RATING,
    }
}

/// `s` without the run of `c` at its end.
pub open spec fn without_trailing(s: Seq<char>, c: char) -> Seq<char>
    decreases s.len(),
{
    if s.len() > 0 && s.last() == c {
        without_trailing(s.drop_last(), c)
    } else {
        s
    }
}

/// Cuts the run of `c` off the end of `s`.
pub fn strip_trailing(s: &str, c: char) -> (r: &str)
    ensures
        r@ == without_trailing(s@, c),
{
    let mut end: usize = s.unicode_len();
    assert(s@.subrange(0, end as int) =~= s@);
    while end > 0 && s.get_char(end - 1) == c
        invariant
            end <= s@.len(),
            without_trailing(s@, c) == without_trailing(s@.subrange(0, end as int), c),
        decreases end,
    {
        assert(s@.subrange(0, end as int).drop_last() =~= s@.subrange(0, end - 1));
        end = end - 1;
    }
    s.substring_char(0, end)
}

/// The text that is read as the date of a basketball game: the provider's
/// day, without a trailing `Z` and without white space around it, at
/// midnight UTC.
pub open spec fn nba_date_text(date: Seq<char>) -> Seq<char> {
    trimmed(without_trailing(date, 'Z')) + "T00:00:00Z"@
}

/// Writes the text that is read as the date of a basketball game.
pub fn nba_date(date: &str) -> (text: String)
    ensures
        text@ == nba_date_text(date@),
{
    let day: &str = trim(strip_trailing(date, 'Z'));
    let mut text: String = String::from_str(day);
    text.append("T00:00:00Z");
    text
}

/// A basketball game counts as finished when both scores are there and
/// neither is zero, or when its status says so.
pub open spec fn nba_is_finished(source: NbaGame, status_says_final: bool) -> bool {
    (source.home_team_score is Some && source.visitor_team_score is Some
        && source.home_team_score != Some(0u32) && source.visitor_team_score != Some(0u32))
        || status_says_final
}

/// The status of a basketball game says that it is over: the word `final`
/// occurs in it, in any mix of cases.
pub open spec fn says_final(status: Seq<char>) -> bool {
    is_substring(lowercase_of(status), "final"@)
}

/// `m` is the engine's record of the basketball game `source`, played at
/// `date`, finished or not.
pub open spec fn is_nba_record(m: Match, source: NbaGame, date: i64, finished: bool) -> bool {
    &&& m.id@ == prefixed_id("nba_"@, source.id)
    &&& m.home_team_id@ == prefixed_id("nba_"@, source.home_team.id)
    &&& m.away_team_id@ == prefixed_id("nba_"@, source.visitor_team.id)
    &&& m.home_team_name@ == source.home_team.full_name@
    &&& m.away_team_name@ == source.visitor_team.full_name@
    &&& m.sport == Sport::Basketball
    &&& m.league@ == "NBA"@
    &&& m.match_date == date
    &&& m.status == if finished {
        MatchStatus::Finished
    } else {
        MatchStatus::Scheduled
    }
    &&& m.home_score == score_when(m.status, source.home_team_score)
    &&& m.away_score == score_when(m.status, source.visitor_team_score)
}

/// Builds the engine's record of a basketball game. `date` is what was read
/// of its day, `status_says_final` whether its status calls it final; a game
/// whose day cannot be read is dated `now`.
pub fn nba_game_record(
    source: &NbaGame,
    date: Option<i64>,
    status_says_final: bool,
    now: i64,
) -> (m: Match)
    ensures
        is_nba_record(
            m,
            *source,
            if date is Some {
                date->0
            } else {
                now
            },
            nba_is_finished(*source, status_says_final),
        ),
        m.well_formed(),
{
    let scored: bool = match (source.home_team_score, source.visitor_team_score) {
        (Some(h), Some(v)) => h != 0 && v != 0,
        _ => false,
    };
    let finished: bool = scored || status_says_final;
    let status: MatchStatus = if finished {
        MatchStatus::Finished
    } else {
        MatchStatus::Scheduled
    };
    let match_date: i64 = match date {
        Some(d) => d,
        None => now,
    };
    Match {
        id: make_id("nba_", source.id),
        home_team_id: make_id("nba_", source.home_team.id),
        away_team_id: make_id("nba_", source.visitor_team.id),
        home_team_name: source.home_team.full_name.clone(),
        away_team_name: source.visitor_team.full_name.clone(),
        sport: Sport::Basketball,
        league: String::from_str("NBA"),
        match_date,
        status,
        home_score: score_for(status, source.home_team_score),
        away_score: score_for(status, source.visitor_team_score),
    }
}

/// Converts a basketball game of the provider, read at the instant `now`.
pub fn nba_game_to_match(source: &NbaGame, now: i64) -> (m: Match)
    ensures
        is_nba_record(
            m,
            *source,
            match rfc3339_seconds(nba_date_text(source.date@)) {
                Some(d) => d,
                None => now,
            },
            nba_is_finished(*source, says_final(source.status@)),
        ),
        m.well_formed(),
{
    let text: String = nba_date(source.date.as_str());
    let date: Option<i64> = parse_rfc3339(text.as_str());
    let lowered: String = lowercase(source.status.as_str());
    let status_says_final: bool = has_substring(lowered.as_str(), "final");
    nba_game_record(source, date, status_says_final, now)
}

} // verus!
