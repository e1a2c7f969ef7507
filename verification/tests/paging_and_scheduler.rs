use oddsforge::models::{Match, MatchStatus, Sport};
use oddsforge::paging::{
    FetchError, FetchPhase, PageReply, PageStep, PagedFetch, BACKOFF_BASE_SECONDS, MAX_ATTEMPTS,
    PAGE_GAP_SECONDS,
};
use oddsforge::scheduler::{
    has_upcoming, is_stale, Call, CycleOutcome, Orchestrator, Refresh, Source, ROSTER_EVERY,
};

const HOUR: i64 = 3_600;
const DAY: i64 = 86_400;
const NOW: i64 = 1_700_000_000;

fn page(rows: u64, next_cursor: Option<u64>) -> PageReply {
    PageReply::Page { rows, next_cursor }
}

fn request(wait_seconds: u64, cursor: Option<u64>) -> PageStep {
    PageStep::Request { wait_seconds, cursor }
}

fn fixture(sport: Sport, date: i64, status: MatchStatus) -> Match {
    Match {
        id: format!("m{}", date),
        home_team_id: "a".to_string(),
        away_team_id: "b".to_string(),
        home_team_name: "A".to_string(),
        away_team_name: "B".to_string(),
        sport,
        league: "L".to_string(),
        match_date: date,
        status,
        home_score: None,
        away_score: None,
    }
}

fn source(key: &str, sport: Sport) -> Source {
    Source {
        key: key.to_string(),
        sport,
        min_interval: 12 * HOUR,
        lookahead: 3 * DAY,
        call_gap: 6,
    }
}

#[test]
fn pages_are_fetched_until_the_cursor_ends() {
    let mut fetch = PagedFetch::begin();
    assert_eq!(fetch.phase, FetchPhase::Requesting);
    assert_eq!(fetch.cursor, None);
    assert_eq!(PAGE_GAP_SECONDS, 2);
    assert_eq!(fetch.advance(page(100, Some(7))), request(2, Some(7)));
    assert_eq!(fetch.advance(page(100, Some(8))), request(2, Some(8)));
    assert_eq!(fetch.advance(page(40, None)), PageStep::Finished);
    assert_eq!(fetch.phase, FetchPhase::Finished);
    assert_eq!(fetch.pages, 3);
    assert_eq!(fetch.rows, 240);
    // a fetch that has ended stays ended
    assert_eq!(fetch.advance(page(10, Some(9))), PageStep::Finished);
    assert_eq!(fetch.advance(PageReply::Throttled), PageStep::Finished);
    assert_eq!(fetch.pages, 3);
    assert_eq!(fetch.rows, 240);
}

#[test]
fn an_empty_page_ends_the_fetch() {
    let mut fetch = PagedFetch::begin();
    assert_eq!(fetch.advance(page(0, Some(7))), PageStep::Finished);
    assert_eq!(fetch.pages, 1);
    assert_eq!(fetch.rows, 0);
    let mut fetch = PagedFetch::begin();
    assert_eq!(fetch.advance(page(0, None)), PageStep::Finished);
}

#[test]
fn throttling_backs_off_and_then_gives_up() {
    assert_eq!(MAX_ATTEMPTS, 3);
    assert_eq!(BACKOFF_BASE_SECONDS, 5);
    let mut fetch = PagedFetch::begin();
    assert_eq!(fetch.advance(page(100, Some(7))), request(2, Some(7)));
    assert_eq!(fetch.advance(PageReply::Throttled), request(10, Some(7)));
    assert_eq!(fetch.advance(PageReply::Throttled), request(20, Some(7)));
    assert_eq!(fetch.advance(PageReply::Throttled), PageStep::Failed(FetchError::Exhausted));
    assert_eq!(fetch.phase, FetchPhase::Failed(FetchError::Exhausted));
    assert_eq!(fetch.pages, 1);
    assert_eq!(fetch.advance(page(1, None)), PageStep::Failed(FetchError::Exhausted));
}

#[test]
fn a_page_resets_the_retry_budget() {
    let mut fetch = PagedFetch::begin();
    assert_eq!(fetch.advance(PageReply::Throttled), request(10, None));
    assert_eq!(fetch.advance(PageReply::Throttled), request(20, None));
    assert_eq!(fetch.advance(page(100, Some(3))), request(2, Some(3)));
    assert_eq!(fetch.attempts, 0);
    assert_eq!(fetch.advance(PageReply::Throttled), request(10, Some(3)));
    assert_eq!(fetch.advance(PageReply::Throttled), request(20, Some(3)));
    assert_eq!(fetch.advance(page(5, None)), PageStep::Finished);
}

#[test]
fn a_refusal_fails_the_fetch() {
    let mut fetch = PagedFetch::begin();
    assert_eq!(fetch.advance(page(100, Some(7))), request(2, Some(7)));
    assert_eq!(fetch.advance(PageReply::Refused), PageStep::Failed(FetchError::UpstreamUnavailable));
    assert_eq!(fetch.phase, FetchPhase::Failed(FetchError::UpstreamUnavailable));
    assert_eq!(
        fetch.advance(PageReply::Throttled),
        PageStep::Failed(FetchError::UpstreamUnavailable)
    );
}

#[test]
fn counters_do_not_overflow() {
    let mut fetch = PagedFetch {
        cursor: None,
        attempts: u32::MAX,
        pages: u64::MAX,
        rows: u64::MAX - 1,
        phase: FetchPhase::Requesting,
    };
    assert_eq!(fetch.advance(page(5, Some(1))), request(2, Some(1)));
    assert_eq!(fetch.pages, u64::MAX);
    assert_eq!(fetch.rows, u64::MAX);
    let mut worn = PagedFetch { attempts: u32::MAX, ..PagedFetch::begin() };
    assert_eq!(worn.advance(PageReply::Throttled), PageStep::Failed(FetchError::Exhausted));
}

#[test]
fn staleness() {
    assert!(is_stale(None, NOW, 12 * HOUR));
    assert!(is_stale(Some(NOW - 13 * HOUR), NOW, 12 * HOUR));
    assert!(is_stale(Some(NOW - 12 * HOUR - 1), NOW, 12 * HOUR));
    assert!(!is_stale(Some(NOW - 12 * HOUR), NOW, 12 * HOUR));
    assert!(!is_stale(Some(NOW - 1), NOW, 12 * HOUR));
    assert!(!is_stale(Some(NOW + 5 * HOUR), NOW, 12 * HOUR));
    assert!(is_stale(Some(i64::MIN), i64::MAX, i64::MAX));
    assert!(!is_stale(Some(i64::MAX), i64::MIN, i64::MIN));
}

#[test]
fn upcoming_matches_within_the_lookahead() {
    let matches = vec![
        fixture(Sport::Football, NOW + 2 * DAY, MatchStatus::Scheduled),
        fixture(Sport::Basketball, NOW + 5 * DAY, MatchStatus::Scheduled),
        fixture(Sport::Basketball, NOW + DAY, MatchStatus::Finished),
        fixture(Sport::Other, NOW, MatchStatus::Scheduled),
    ];
    assert!(has_upcoming(&matches, Sport::Football, NOW, 3 * DAY));
    assert!(!has_upcoming(&matches, Sport::Football, NOW, 2 * DAY));
    assert!(has_upcoming(&matches, Sport::Football, NOW, 2 * DAY + 1));
    assert!(!has_upcoming(&matches, Sport::Basketball, NOW, 3 * DAY));
    assert!(has_upcoming(&matches, Sport::Basketball, NOW, 6 * DAY));
    assert!(!has_upcoming(&matches, Sport::Other, NOW, 3 * DAY));
    assert!(has_upcoming(&matches, Sport::Other, NOW - 1, 3 * DAY));
    assert!(!has_upcoming(&Vec::new(), Sport::Football, NOW, 3 * DAY));
    assert!(has_upcoming(&matches, Sport::Football, NOW, i64::MAX));
    assert!(!has_upcoming(&matches, Sport::Football, NOW, i64::MIN));
}

#[test]
fn a_cycle_calls_the_sources_that_are_worth_it() {
    let sources = vec![
        source("football-data", Sport::Football),
        source("balldontlie", Sport::Basketball),
        source("odds_epl", Sport::Football),
        source("other", Sport::Other),
    ];
    // football was never fetched, basketball long ago, the odds an hour ago
    let cursors = vec![None, Some(NOW - 2 * DAY), Some(NOW - HOUR)];
    let matches = vec![
        fixture(Sport::Football, NOW + DAY, MatchStatus::Scheduled),
        fixture(Sport::Basketball, NOW + DAY, MatchStatus::Scheduled),
    ];
    let loop_state = Orchestrator::new(sources, &cursors);
    assert_eq!(loop_state.cycle_number(), 0);
    assert!(!loop_state.busy());
    let (loop_state, calls) = loop_state.begin_cycle(&matches, NOW);
    assert_eq!(loop_state.cycle_number(), 1);
    assert!(loop_state.busy());
    assert_eq!(
        calls.unwrap(),
        vec![
            Call { source_row: 0, refresh: Refresh::Status, wait_seconds: 0 },
            Call { source_row: 1, refresh: Refresh::Status, wait_seconds: 0 },
        ]
    );
}

#[test]
fn a_tick_during_a_cycle_is_dropped() {
    let matches = vec![fixture(Sport::Football, NOW + DAY, MatchStatus::Scheduled)];
    let loop_state = Orchestrator::new(vec![source("football-data", Sport::Football)], &vec![]);
    let (loop_state, first) = loop_state.begin_cycle(&matches, NOW);
    assert_eq!(first.as_ref().map(|c| c.len()), Some(1));
    let (loop_state, second) = loop_state.begin_cycle(&matches, NOW + 60);
    assert_eq!(second, None);
    assert_eq!(loop_state.cycle_number(), 1);
    assert!(loop_state.busy());
    let (loop_state, outcome) = loop_state.finish_cycle(&first.unwrap(), &vec![false], NOW + 90);
    assert_eq!(outcome, CycleOutcome { recompute: false });
    assert!(!loop_state.busy());
    let (loop_state, third) = loop_state.begin_cycle(&matches, NOW + 120);
    assert_eq!(third.map(|c| c.len()), Some(1));
    assert_eq!(loop_state.cycle_number(), 2);
}

#[test]
fn every_tenth_cycle_refreshes_the_roster() {
    assert_eq!(ROSTER_EVERY, 10);
    let matches = vec![fixture(Sport::Football, NOW + DAY, MatchStatus::Scheduled)];
    let mut loop_state = Orchestrator::new(vec![source("football-data", Sport::Football)], &vec![]);
    for cycle in 1..=20u64 {
        let now = NOW + cycle as i64 * 60;
        let (next, calls) = loop_state.begin_cycle(&matches, now);
        let calls = calls.unwrap();
        assert_eq!(next.cycle_number(), cycle);
        if cycle % 10 == 0 {
            assert_eq!(
                calls,
                vec![
                    Call { source_row: 0, refresh: Refresh::Status, wait_seconds: 0 },
                    Call { source_row: 0, refresh: Refresh::Roster, wait_seconds: 6 },
                ]
            );
        } else {
            assert_eq!(
                calls,
                vec![Call { source_row: 0, refresh: Refresh::Status, wait_seconds: 0 }]
            );
        }
        // the fetch fails, so the source stays due
        let failed = vec![false; calls.len()];
        let (next, outcome) = next.finish_cycle(&calls, &failed, now + 1);
        assert!(!outcome.recompute);
        assert!(next.cursor(0).is_none());
        loop_state = next;
    }
}

#[test]
fn a_cursor_moves_only_after_a_full_success() {
    let sources = vec![
        source("football-data", Sport::Football),
        source("balldontlie", Sport::Basketball),
        source("quiet", Sport::Other),
    ];
    let cursors = vec![Some(100), None, Some(300)];
    let calls = vec![
        Call { source_row: 0, refresh: Refresh::Status, wait_seconds: 0 },
        Call { source_row: 0, refresh: Refresh::Roster, wait_seconds: 6 },
        Call { source_row: 1, refresh: Refresh::Status, wait_seconds: 0 },
        Call { source_row: 1, refresh: Refresh::Roster, wait_seconds: 6 },
    ];
    // the roster refresh of the first source fails
    let loop_state = Orchestrator::new(sources, &cursors);
    let (loop_state, outcome) = loop_state.finish_cycle(&calls, &vec![true, false, true, true], NOW);
    assert!(outcome.recompute);
    assert_eq!(loop_state.cursor(0).map(|c| c.last_fetched), Some(100));
    let second = loop_state.cursor(1).unwrap();
    assert_eq!(second.source_key, "balldontlie");
    assert_eq!(second.last_fetched, NOW);
    // a source that was not called keeps its cursor
    assert_eq!(loop_state.cursor(2).map(|c| c.last_fetched), Some(300));
    assert!(loop_state.cursor(3).is_none());
    // outcomes that were not reported count as failures
    let (loop_state, outcome) = loop_state.finish_cycle(&calls, &vec![true], NOW + 50);
    assert!(outcome.recompute);
    assert_eq!(loop_state.cursor(0).map(|c| c.last_fetched), Some(100));
    assert_eq!(loop_state.cursor(1).map(|c| c.last_fetched), Some(NOW));
    let (loop_state, outcome) = loop_state.finish_cycle(&calls, &Vec::new(), NOW + 60);
    assert!(!outcome.recompute);
    let (loop_state, outcome) = loop_state.finish_cycle(&Vec::new(), &vec![true], NOW + 70);
    assert!(!outcome.recompute);
    let (loop_state, _) = loop_state.finish_cycle(&calls, &vec![true; 4], NOW + 80);
    assert_eq!(loop_state.cursor(0).map(|c| c.last_fetched), Some(NOW + 80));
    assert_eq!(loop_state.cursor(1).map(|c| c.last_fetched), Some(NOW + 80));
    assert_eq!(loop_state.cursor(2).map(|c| c.last_fetched), Some(300));
}

#[test]
fn a_fresh_cursor_spares_the_quota() {
    let matches = vec![fixture(Sport::Football, NOW + DAY, MatchStatus::Scheduled)];
    let loop_state = Orchestrator::new(vec![source("odds_epl", Sport::Football)], &vec![]);
    let (loop_state, calls) = loop_state.begin_cycle(&matches, NOW);
    let calls = calls.unwrap();
    assert_eq!(calls.len(), 1);
    let (loop_state, outcome) = loop_state.finish_cycle(&calls, &vec![true], NOW + 5);
    assert!(outcome.recompute);
    // twelve hours later the source is not due yet, a second later it is
    let (loop_state, calls) = loop_state.begin_cycle(&matches, NOW + 5 + 12 * HOUR);
    assert_eq!(calls.unwrap(), Vec::new());
    let (loop_state, _) = loop_state.finish_cycle(&Vec::new(), &Vec::new(), NOW + 6 + 12 * HOUR);
    assert_eq!(loop_state.cursor(0).map(|c| c.last_fetched), Some(NOW + 5));
    let (loop_state, calls) = loop_state.begin_cycle(&matches, NOW + 6 + 12 * HOUR);
    assert_eq!(calls.unwrap().len(), 1);
    // without a match ahead there is nothing to fetch for
    let (loop_state, _) = loop_state.finish_cycle(&Vec::new(), &Vec::new(), NOW + 30 * DAY);
    let (_, calls) = loop_state.begin_cycle(&matches, NOW + 30 * DAY);
    assert_eq!(calls.unwrap(), Vec::new());
}
