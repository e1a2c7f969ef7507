use oddsforge::market::{find_prediction, find_quote};
use oddsforge::models::{
    EloHistoryPoint, FetchCursor, MarketOdds, Match, MatchStatus, Prediction, Sport,
};

#[test]
fn sports_by_name() {
    assert_eq!(Sport::from_name("football"), Sport::Football);
    assert_eq!(Sport::from_name("basketball"), Sport::Basketball);
    assert_eq!(Sport::from_name("other"), Sport::Other);
    assert_eq!(Sport::from_name("hockey"), Sport::Other);
    assert_eq!(Sport::from_name("Football"), Sport::Other);
    assert_eq!(Sport::from_name(""), Sport::Other);
    for sport in [Sport::Football, Sport::Basketball, Sport::Other] {
        assert_eq!(Sport::from_name(sport.name()), sport);
    }
    assert_eq!(Sport::Football.name(), "football");
    assert_eq!(Sport::Basketball.name(), "basketball");
}

#[test]
fn sports_and_their_points() {
    assert!(Sport::Football.draw_capable());
    assert!(!Sport::Basketball.draw_capable());
    assert!(!Sport::Other.draw_capable());
    assert_eq!(Sport::Football.max_points(), 3);
    assert_eq!(Sport::Basketball.max_points(), 1);
    assert_eq!(Sport::Other.max_points(), 1);
}

#[test]
fn statuses_by_name() {
    assert_eq!(MatchStatus::from_name("scheduled"), Some(MatchStatus::Scheduled));
    assert_eq!(MatchStatus::from_name("live"), Some(MatchStatus::Live));
    assert_eq!(MatchStatus::from_name("finished"), Some(MatchStatus::Finished));
    assert_eq!(MatchStatus::from_name("FINISHED"), None);
    assert_eq!(MatchStatus::from_name(""), None);
    for status in [MatchStatus::Scheduled, MatchStatus::Live, MatchStatus::Finished] {
        assert_eq!(MatchStatus::from_name(status.name()), Some(status));
    }
}

#[test]
fn statuses_move_forward_only() {
    let scheduled = MatchStatus::Scheduled;
    let live = MatchStatus::Live;
    let finished = MatchStatus::Finished;
    assert!(scheduled.can_become(scheduled));
    assert!(scheduled.can_become(live));
    assert!(scheduled.can_become(finished));
    assert!(live.can_become(live));
    assert!(live.can_become(finished));
    assert!(finished.can_become(finished));
    assert!(!live.can_become(scheduled));
    assert!(!finished.can_become(scheduled));
    assert!(!finished.can_become(live));
}

#[test]
fn a_match_has_a_result_once_finished_with_both_scores() {
    let mut m = Match {
        id: "m".to_string(),
        home_team_id: "a".to_string(),
        away_team_id: "b".to_string(),
        home_team_name: "A".to_string(),
        away_team_name: "B".to_string(),
        sport: Sport::Football,
        league: "EPL".to_string(),
        match_date: 0,
        status: MatchStatus::Finished,
        home_score: Some(1),
        away_score: Some(0),
    };
    assert!(m.has_result());
    m.away_score = None;
    assert!(!m.has_result());
    m.away_score = Some(0);
    m.status = MatchStatus::Live;
    assert!(!m.has_result());
    let copy = m.clone();
    assert_eq!(copy.id, "m");
}

#[test]
fn forecasts_and_quotes_are_found_by_match() {
    let p = |match_id: &str| Prediction {
        id: format!("p-{}", match_id),
        match_id: match_id.to_string(),
        home_win_probability: 500_000_000,
        away_win_probability: 500_000_000,
        draw_probability: None,
        model_version: "ensemble_v2.0".to_string(),
        confidence_score: 400_000_000,
        created_at: 0,
    };
    let q = |match_id: &str| MarketOdds {
        match_id: match_id.to_string(),
        bookmaker: "B".to_string(),
        home_odds: 2_000,
        draw_odds: None,
        away_odds: 2_000,
        fetched_at: 0,
    };
    let predictions = vec![p("a"), p("b"), p("a")];
    assert_eq!(find_prediction(&predictions, "a"), Some(0));
    assert_eq!(find_prediction(&predictions, "b"), Some(1));
    assert_eq!(find_prediction(&predictions, "c"), None);
    let quotes = vec![q("x"), q("y")];
    assert_eq!(find_quote(&quotes, "y"), Some(1));
    assert_eq!(find_quote(&quotes, "z"), None);
    assert_eq!(find_quote(&Vec::new(), "x"), None);
}

#[test]
fn records_hold_their_fields() {
    let point = EloHistoryPoint {
        team_id: "a".to_string(),
        date: 5,
        elo_rating: 1_200_000_000,
        match_id: None,
    };
    assert_eq!(point.clone().elo_rating, 1_200_000_000);
    let cursor = FetchCursor { source_key: "odds_epl".to_string(), last_fetched: 9 };
    assert_eq!(cursor.clone().source_key, "odds_epl");
}
