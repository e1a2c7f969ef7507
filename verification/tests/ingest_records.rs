use oddsforge::ingest::{
    convert_score, football_match_record, football_match_to_match, football_status,
    football_team_to_team, make_id, nba_date, nba_game_record, nba_game_to_match,
    nba_team_to_team, strip_trailing, FootballDataMatches, FootballDataTeams, FootballMatch,
    FootballTeam, MatchScore, MatchTeam, NbaGame, NbaGamesResponse, NbaMeta, NbaTeam,
    NbaTeamsResponse, Score,
};
use oddsforge::models::{MatchStatus, Sport};
use oddsforge::text::{append_decimal, append_hex, decimal, hexadecimal, join_words, same_text};

fn football_match(status: &str, date: &str, score: Option<(Option<u32>, Option<u32>)>) -> FootballMatch {
    FootballMatch {
        id: 4711,
        utc_date: date.to_string(),
        status: status.to_string(),
        home_team: MatchTeam { id: 57, name: "Arsenal FC".to_string() },
        away_team: MatchTeam { id: 61, name: "Chelsea FC".to_string() },
        score: MatchScore { full_time: score.map(|s| Score { home: s.0, away: s.1 }) },
    }
}

fn nba_game(date: &str, status: &str, home: Option<u32>, visitor: Option<u32>) -> NbaGame {
    NbaGame {
        id: 15,
        date: date.to_string(),
        home_team: NbaTeam { id: 2, full_name: "Boston Celtics".to_string() },
        visitor_team: NbaTeam { id: 14, full_name: "Los Angeles Lakers".to_string() },
        home_team_score: home,
        visitor_team_score: visitor,
        status: status.to_string(),
    }
}

#[test]
fn numerals() {
    assert_eq!(decimal(0), "0");
    assert_eq!(decimal(7), "7");
    assert_eq!(decimal(10), "10");
    assert_eq!(decimal(4_711), "4711");
    assert_eq!(decimal(u64::MAX), "18446744073709551615");
    assert_eq!(hexadecimal(0), "0");
    assert_eq!(hexadecimal(15), "f");
    assert_eq!(hexadecimal(16), "10");
    assert_eq!(hexadecimal(0xdead_beef), "deadbeef");
    assert_eq!(hexadecimal(u64::MAX), "ffffffffffffffff");
    for n in [1u64, 9, 99, 100, 255, 256, 65_535, 1 << 40, u64::MAX - 1] {
        assert_eq!(decimal(n), n.to_string());
        assert_eq!(hexadecimal(n), format!("{:x}", n));
    }
    let mut s = "x=".to_string();
    append_decimal(&mut s, 305);
    append_hex(&mut s, 305);
    assert_eq!(s, "x=305131");
}

#[test]
fn texts_are_compared_and_joined() {
    assert!(same_text("abc", "abc"));
    assert!(!same_text("abc", "abd"));
    assert!(!same_text("abc", "ab"));
    assert!(same_text("", ""));
    assert!(!same_text("ABC", "abc"));
    assert_eq!(join_words(&vec![]), "");
    assert_eq!(join_words(&vec!["one".to_string()]), "one");
    assert_eq!(
        join_words(&vec!["man".to_string(), "united".to_string(), "fc".to_string()]),
        "man united fc"
    );
    assert_eq!(join_words(&vec!["".to_string(), "".to_string()]), " ");
}

#[test]
fn ids_carry_the_provider_prefix() {
    assert_eq!(make_id("epl_", 57), "epl_57");
    assert_eq!(make_id("nba_", 0), "nba_0");
    assert_eq!(make_id("", u32::MAX), "4294967295");
}

#[test]
fn scores_are_held_in_range() {
    assert_eq!(convert_score(0), 0);
    assert_eq!(convert_score(3), 3);
    assert_eq!(convert_score(i32::MAX as u32), i32::MAX);
    assert_eq!(convert_score(i32::MAX as u32 + 1), i32::MAX);
    assert_eq!(convert_score(u32::MAX), i32::MAX);
}

#[test]
fn football_status_words() {
    assert_eq!(football_status("FINISHED"), MatchStatus::Finished);
    assert_eq!(football_status("IN_PLAY"), MatchStatus::Live);
    assert_eq!(football_status("PAUSED"), MatchStatus::Live);
    assert_eq!(football_status("SCHEDULED"), MatchStatus::Scheduled);
    assert_eq!(football_status("TIMED"), MatchStatus::Scheduled);
    assert_eq!(football_status("POSTPONED"), MatchStatus::Scheduled);
    assert_eq!(football_status("finished"), MatchStatus::Scheduled);
    assert_eq!(football_status(""), MatchStatus::Scheduled);
}

#[test]
fn football_match_becomes_a_match() {
    let source = football_match("FINISHED", "2025-03-01T15:00:00Z", Some((Some(2), Some(1))));
    let m = football_match_to_match(&source).unwrap();
    assert_eq!(m.id, "epl_4711");
    assert_eq!(m.home_team_id, "epl_57");
    assert_eq!(m.away_team_id, "epl_61");
    assert_eq!(m.home_team_name, "Arsenal FC");
    assert_eq!(m.away_team_name, "Chelsea FC");
    assert_eq!(m.sport, Sport::Football);
    assert_eq!(m.league, "EPL");
    assert_eq!(m.status, MatchStatus::Finished);
    assert_eq!(m.home_score, Some(2));
    assert_eq!(m.away_score, Some(1));
    // the kick-off is the instant that the date denotes
    let parsed = chrono::DateTime::parse_from_rfc3339("2025-03-01T15:00:00Z").unwrap();
    assert_eq!(m.match_date, parsed.timestamp());
    assert_eq!(m.match_date, 1_740_841_200);
}

#[test]
fn football_kick_off_respects_the_offset() {
    let source = football_match("TIMED", "2025-03-01T15:00:00+02:00", None);
    let m = football_match_to_match(&source).unwrap();
    assert_eq!(m.match_date, 1_740_841_200 - 2 * 3_600);
    assert_eq!(m.status, MatchStatus::Scheduled);
    assert_eq!(m.home_score, None);
    assert_eq!(m.away_score, None);
}

#[test]
fn football_match_without_a_readable_date_is_dropped() {
    for date in ["", "yesterday", "2025-03-01", "2025-13-01T15:00:00Z", "1740841200"] {
        let source = football_match("FINISHED", date, Some((Some(2), Some(1))));
        assert!(football_match_to_match(&source).is_none());
    }
    let source = football_match("FINISHED", "whenever", None);
    assert!(football_match_record(&source, None).is_none());
    assert_eq!(football_match_record(&source, Some(77)).unwrap().match_date, 77);
}

#[test]
fn football_scores_are_kept_for_finished_matches_only() {
    let live = football_match("IN_PLAY", "2025-03-01T15:00:00Z", Some((Some(1), Some(0))));
    let m = football_match_to_match(&live).unwrap();
    assert_eq!(m.status, MatchStatus::Live);
    assert_eq!((m.home_score, m.away_score), (None, None));
    let half = football_match("FINISHED", "2025-03-01T15:00:00Z", Some((Some(1), None)));
    let m = football_match_to_match(&half).unwrap();
    assert_eq!((m.home_score, m.away_score), (Some(1), None));
    let none = football_match("FINISHED", "2025-03-01T15:00:00Z", None);
    let m = football_match_to_match(&none).unwrap();
    assert_eq!((m.home_score, m.away_score), (None, None));
}

#[test]
fn teams_start_at_the_baseline() {
    let t = football_team_to_team(&FootballTeam {
        id: 57,
        name: "Arsenal FC".to_string(),
        crest: Some("https://crests/57.png".to_string()),
    });
    assert_eq!(t.id, "epl_57");
    assert_eq!(t.name, "Arsenal FC");
    assert_eq!(t.sport, Sport::Football);
    assert_eq!(t.league, "EPL");
    assert_eq!(t.logo_url.as_deref(), Some("https://crests/57.png"));
    assert_eq!(t.elo_rating, 1_200_000_000);
    let t = football_team_to_team(&FootballTeam { id: 1, name: "X".to_string(), crest: None });
    assert_eq!(t.logo_url, None);
    let t = nba_team_to_team(&NbaTeam { id: 14, full_name: "Los Angeles Lakers".to_string() });
    assert_eq!(t.id, "nba_14");
    assert_eq!(t.name, "Los Angeles Lakers");
    assert_eq!(t.sport, Sport::Basketball);
    assert_eq!(t.league, "NBA");
    assert_eq!(t.logo_url, None);
    assert_eq!(t.elo_rating, 1_200_000_000);
}

#[test]
fn trailing_characters_are_stripped() {
    assert_eq!(strip_trailing("2025-03-01Z", 'Z'), "2025-03-01");
    assert_eq!(strip_trailing("2025-03-01ZZZ", 'Z'), "2025-03-01");
    assert_eq!(strip_trailing("2025-03-01", 'Z'), "2025-03-01");
    assert_eq!(strip_trailing("Z2025Z", 'Z'), "Z2025");
    assert_eq!(strip_trailing("ZZ", 'Z'), "");
    assert_eq!(strip_trailing("", 'Z'), "");
    assert_eq!(strip_trailing("zürichüü", 'ü'), "zürich");
}

#[test]
fn basketball_dates_are_read_at_midnight() {
    assert_eq!(nba_date("2025-03-01"), "2025-03-01T00:00:00Z");
    assert_eq!(nba_date("2025-03-01Z"), "2025-03-01T00:00:00Z");
    assert_eq!(nba_date(" 2025-03-01 Z"), "2025-03-01T00:00:00Z");
    assert_eq!(nba_date(""), "T00:00:00Z");
    let g = nba_game("2025-03-01", "Final", Some(101), Some(99));
    let m = nba_game_to_match(&g, 5);
    assert_eq!(m.match_date, 1_740_787_200);
}

#[test]
fn basketball_game_becomes_a_match() {
    let g = nba_game("2025-03-01", "Final", Some(101), Some(99));
    let m = nba_game_to_match(&g, 5);
    assert_eq!(m.id, "nba_15");
    assert_eq!(m.home_team_id, "nba_2");
    assert_eq!(m.away_team_id, "nba_14");
    assert_eq!(m.home_team_name, "Boston Celtics");
    assert_eq!(m.away_team_name, "Los Angeles Lakers");
    assert_eq!(m.sport, Sport::Basketball);
    assert_eq!(m.league, "NBA");
    assert_eq!(m.status, MatchStatus::Finished);
    assert_eq!((m.home_score, m.away_score), (Some(101), Some(99)));
}

#[test]
fn basketball_game_is_finished_by_scores_or_by_status() {
    // both scores and neither zero
    let m = nba_game_to_match(&nba_game("2025-03-01", "4th Qtr", Some(101), Some(99)), 5);
    assert_eq!(m.status, MatchStatus::Finished);
    // a zero score is a game that has not started
    let m = nba_game_to_match(&nba_game("2025-03-01", "7:30 pm ET", Some(0), Some(0)), 5);
    assert_eq!(m.status, MatchStatus::Scheduled);
    assert_eq!((m.home_score, m.away_score), (None, None));
    let m = nba_game_to_match(&nba_game("2025-03-01", "1st Qtr", Some(3), Some(0)), 5);
    assert_eq!(m.status, MatchStatus::Scheduled);
    let m = nba_game_to_match(&nba_game("2025-03-01", "", None, Some(10)), 5);
    assert_eq!(m.status, MatchStatus::Scheduled);
    // the status alone is enough, in any mix of cases
    for status in ["Final", "FINAL", "final/OT", "Semifinal"] {
        let m = nba_game_to_match(&nba_game("2025-03-01", status, None, None), 5);
        assert_eq!(m.status, MatchStatus::Finished);
        assert_eq!((m.home_score, m.away_score), (None, None));
    }
    let m = nba_game_to_match(&nba_game("2025-03-01", "Final", Some(0), Some(0)), 5);
    assert_eq!(m.status, MatchStatus::Finished);
    assert_eq!((m.home_score, m.away_score), (Some(0), Some(0)));
}

#[test]
fn basketball_game_without_a_readable_date_is_dated_now() {
    let m = nba_game_to_match(&nba_game("soon", "", None, None), 1_234);
    assert_eq!(m.match_date, 1_234);
    let m = nba_game_to_match(&nba_game("2025-02-30", "", None, None), 1_234);
    assert_eq!(m.match_date, 1_234);
    let g = nba_game("soon", "", Some(5), Some(6));
    let m = nba_game_record(&g, Some(42), false, 1_234);
    assert_eq!(m.match_date, 42);
    assert_eq!(m.status, MatchStatus::Finished);
    let m = nba_game_record(&g, None, true, 1_234);
    assert_eq!(m.match_date, 1_234);
    let open = nba_game("soon", "", None, None);
    assert_eq!(nba_game_record(&open, None, true, 0).status, MatchStatus::Finished);
    assert_eq!(nba_game_record(&open, None, false, 0).status, MatchStatus::Scheduled);
}

#[test]
fn provider_pages_hold_their_records() {
    let teams = FootballDataTeams {
        teams: vec![FootballTeam { id: 1, name: "A".to_string(), crest: None }],
    };
    assert_eq!(teams.teams.len(), 1);
    let matches = FootballDataMatches {
        matches: vec![football_match("TIMED", "2025-03-01T15:00:00Z", None)],
    };
    assert_eq!(matches.matches[0].id, 4711);
    let page = NbaTeamsResponse {
        data: vec![NbaTeam { id: 2, full_name: "Boston Celtics".to_string() }],
        meta: Some(NbaMeta { next_cursor: None }),
    };
    assert_eq!(page.data[0].id, 2);
    assert!(page.meta.unwrap().next_cursor.is_none());
    let games = NbaGamesResponse {
        data: vec![nba_game("2025-03-01", "Final", Some(1), Some(2))],
        meta: Some(NbaMeta { next_cursor: Some(99) }),
    };
    assert_eq!(games.data.len(), 1);
    assert_eq!(games.meta.and_then(|m| m.next_cursor), Some(99));
}
