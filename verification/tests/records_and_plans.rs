use oddsforge::ensemble::{gap_confidence, Outlook};
use oddsforge::history::{compute_team_stats, season_record, SeasonRecord};
use oddsforge::models::{Match, MatchStatus, Sport, Team};
use oddsforge::predictor::{PredictionEngine, RatingForecast};
use oddsforge::rating::EloCalculator;
use oddsforge::scheduler::{
    full_load_plan, initial_load, InitialLoad, LoadStep, Provider, Refresh,
};
use oddsforge::utils::{kelly_criterion, moving_average};

fn game(id: &str, sport: Sport, home: &str, away: &str, status: MatchStatus, score: (Option<i32>, Option<i32>)) -> Match {
    Match {
        id: id.to_string(),
        home_team_id: home.to_string(),
        away_team_id: away.to_string(),
        home_team_name: home.to_uppercase(),
        away_team_name: away.to_uppercase(),
        sport,
        league: "L".to_string(),
        match_date: 0,
        status,
        home_score: score.0,
        away_score: score.1,
    }
}

fn team(id: &str, rating: i64) -> Team {
    Team {
        id: id.to_string(),
        name: id.to_uppercase(),
        sport: Sport::Football,
        league: "L".to_string(),
        logo_url: None,
        elo_rating: rating,
    }
}

#[test]
fn kelly_stakes() {
    // even money at 0.6: stake 0.6 - 0.4 / 1 = 0.2
    assert_eq!(kelly_criterion(600_000_000, 2_000), 200_000_000);
    assert_eq!(kelly_criterion(550_000_000, 2_000), 100_000_000);
    // no edge, no stake
    assert_eq!(kelly_criterion(500_000_000, 2_000), 0);
    assert_eq!(kelly_criterion(400_000_000, 2_000), 0);
    assert_eq!(kelly_criterion(0, 5_000), 0);
    // 0.4 at odds of 3.0: 0.4 - 0.6 / 2 = 0.1
    assert_eq!(kelly_criterion(400_000_000, 3_000), 100_000_000);
    assert_eq!(kelly_criterion(333_333_334, 3_000), 1);
    // never more than a quarter of the bankroll
    assert_eq!(kelly_criterion(900_000_000, 3_000), 250_000_000);
    assert_eq!(kelly_criterion(1_000_000_000, 1_500), 250_000_000);
    assert_eq!(kelly_criterion(u32::MAX, 1_500), 250_000_000);
    // odds of 1.0 pay nothing
    assert_eq!(kelly_criterion(600_000_000, 1_000), 0);
    assert_eq!(kelly_criterion(700_000_000, 1_001), 0);
    assert_eq!(kelly_criterion(600_000_000, 500), 250_000_000);
    assert_eq!(kelly_criterion(600_000_000, u32::MAX), 250_000_000);
    assert_eq!(kelly_criterion(100_000_000, u32::MAX), 99_999_791);
}

#[test]
fn moving_averages() {
    assert_eq!(moving_average(&vec![1, 2, 3, 4, 5], 3), vec![2, 3, 4]);
    assert_eq!(moving_average(&vec![1, 2, 3, 4, 5], 1), vec![1, 2, 3, 4, 5]);
    assert_eq!(moving_average(&vec![1, 2, 3, 4, 5], 5), vec![3]);
    // a list shorter than the window stays as it is
    assert_eq!(moving_average(&vec![1, 2, 3, 4, 5], 6), vec![1, 2, 3, 4, 5]);
    assert_eq!(moving_average(&vec![], 3), Vec::<i64>::new());
    // means are rounded toward zero
    assert_eq!(moving_average(&vec![1, 2, 2, 5], 2), vec![1, 2, 3]);
    assert_eq!(moving_average(&vec![-1, -2, -2, -5], 2), vec![-1, -2, -3]);
    assert_eq!(moving_average(&vec![i64::MAX, i64::MAX, i64::MIN], 2), vec![i64::MAX, 0]);
    assert_eq!(moving_average(&vec![i64::MIN, i64::MIN], 2), vec![i64::MIN]);
}

#[test]
fn confidence_from_the_rating_gap() {
    // 0.60 and 0.30 more for 240 points
    assert_eq!(gap_confidence(1_490_000_000, 1_370_000_000), 750_000_000);
    assert_eq!(gap_confidence(1_370_000_000, 1_490_000_000), 750_000_000);
    assert_eq!(gap_confidence(1_200_000_000, 1_200_000_000), 600_000_000);
    assert_eq!(gap_confidence(1_300_000_000, 1_300_000_001), 600_000_001);
    assert_eq!(gap_confidence(1_000_000_000, 1_240_000_000), 900_000_000);
    assert_eq!(gap_confidence(1_000_000_000, 1_500_000_000), 900_000_000);
    assert_eq!(gap_confidence(i64::MIN, i64::MAX), 900_000_000);
}

#[test]
fn season_records() {
    let f = Sport::Football;
    let fin = MatchStatus::Finished;
    let matches = vec![
        game("m0", f, "a", "x", fin, (Some(2), Some(0))),
        game("m1", f, "y", "a", fin, (Some(1), Some(1))),
        game("m2", f, "a", "z", fin, (Some(0), Some(3))),
        game("m3", f, "z", "a", fin, (Some(1), Some(4))),
        // the opposing score is not known: played, but neither won nor lost
        game("m4", f, "a", "x", fin, (Some(2), None)),
        // the team's own score is not known: not counted
        game("m5", f, "x", "a", fin, (Some(2), None)),
        game("m6", f, "a", "x", MatchStatus::Scheduled, (None, None)),
        game("m7", Sport::Basketball, "a", "x", fin, (Some(99), Some(90))),
        game("m8", f, "x", "y", fin, (Some(5), Some(5))),
    ];
    assert_eq!(
        season_record(&matches, "a", f),
        SeasonRecord { matches_played: 5, wins: 2, draws: 1, losses: 1, scored: 9, conceded: 5 }
    );
    assert_eq!(
        season_record(&matches, "x", f),
        SeasonRecord { matches_played: 3, wins: 0, draws: 1, losses: 1, scored: 7, conceded: 7 }
    );
    assert_eq!(
        season_record(&matches, "a", Sport::Basketball),
        SeasonRecord { matches_played: 1, wins: 1, draws: 0, losses: 0, scored: 99, conceded: 90 }
    );
    assert_eq!(
        season_record(&matches, "nobody", f),
        SeasonRecord { matches_played: 0, wins: 0, draws: 0, losses: 0, scored: 0, conceded: 0 }
    );
    // where the sport has no draws a level score counts for nobody
    let b = Sport::Basketball;
    let level = vec![game("m", b, "a", "x", fin, (Some(80), Some(80)))];
    assert_eq!(
        season_record(&level, "a", b),
        SeasonRecord { matches_played: 1, wins: 0, draws: 0, losses: 0, scored: 80, conceded: 80 }
    );
}

#[test]
fn team_stats_of_a_season() {
    let f = Sport::Football;
    let fin = MatchStatus::Finished;
    let mut matches = vec![
        game("m0", f, "a", "x", fin, (Some(2), Some(0))),
        game("m1", f, "y", "a", fin, (Some(1), Some(1))),
        game("m2", f, "a", "z", fin, (Some(0), Some(3))),
    ];
    matches[0].match_date = 10;
    matches[1].match_date = 30;
    matches[2].match_date = 20;
    let stats = compute_team_stats(&matches, "a", f, "s-1".to_string(), "2025-26", 77);
    assert_eq!(stats.id, "s-1");
    assert_eq!(stats.team_id, "a");
    assert_eq!(stats.season, "2025-26");
    assert_eq!((stats.matches_played, stats.wins, stats.losses), (3, 1, 1));
    assert_eq!(stats.draws, Some(1));
    assert_eq!((stats.goals_for, stats.goals_against), (Some(3), Some(4)));
    assert_eq!((stats.points_for, stats.points_against), (None, None));
    assert_eq!(stats.form, "DLW");
    assert_eq!(stats.updated_at, 77);

    let b = Sport::Basketball;
    let games = vec![game("g", b, "x", "a", fin, (Some(90), Some(99)))];
    let stats = compute_team_stats(&games, "a", b, "s-2".to_string(), "2025-26", 78);
    assert_eq!((stats.matches_played, stats.wins, stats.losses), (1, 1, 0));
    assert_eq!(stats.draws, None);
    assert_eq!((stats.goals_for, stats.goals_against), (None, None));
    assert_eq!((stats.points_for, stats.points_against), (Some(99), Some(90)));
    assert_eq!(stats.form, "W");
}

#[test]
fn forecasts_from_the_ratings_alone() {
    let calc = EloCalculator::new();
    let teams = vec![team("a", 1_500_000_000), team("b", 1_400_000_000)];
    let sched = MatchStatus::Scheduled;
    let matches = vec![
        game("m0", Sport::Football, "a", "b", sched, (None, None)),
        game("m1", Sport::Football, "a", "b", MatchStatus::Finished, (Some(1), Some(0))),
        game("m2", Sport::Basketball, "b", "a", sched, (None, None)),
        game("m3", Sport::Football, "a", "zz", sched, (None, None)),
        game("m4", Sport::Football, "b", "a", sched, (None, None)),
    ];
    let expected = vec![759_746_927, 1, 500_000_000, 2];
    assert_eq!(
        calc.calculate_predictions_for_matches(&matches, &teams, &expected),
        vec![
            RatingForecast {
                match_row: 0,
                outlook: Outlook { home: 569_810_195, away: 180_189_805, draw: Some(250_000_000) },
            },
            RatingForecast {
                match_row: 2,
                outlook: Outlook { home: 500_000_000, away: 500_000_000, draw: None },
            },
        ]
    );
    assert!(calc.calculate_predictions_for_matches(&matches, &teams, &Vec::new()).is_empty());
    assert!(calc.calculate_predictions_for_matches(&Vec::new(), &teams, &expected).is_empty());
}

#[test]
fn plain_rating_model() {
    let engine = PredictionEngine::new();
    // 0.5 * 1 - 0.3 + 0.2 * 1.5 + 0.1 * 1.4 = 0.64
    assert_eq!(engine.logistic_regression_logit(1_500_000_000, 1_400_000_000), 640_000_000);
    assert_eq!(engine.logistic_regression_logit(1_200_000_000, 1_200_000_000), 60_000_000);
    assert_eq!(engine.logistic_regression_logit(1_000_000_000, 2_000_000_000), -4_900_000_000);
    assert_eq!(engine.logistic_regression_logit(-5, 3), -300_000_040);
}

#[test]
fn an_empty_store_is_filled_once() {
    assert_eq!(initial_load(0, true, false), InitialLoad::FetchAll);
    assert_eq!(initial_load(0, false, true), InitialLoad::FetchAll);
    assert_eq!(initial_load(0, true, true), InitialLoad::FetchAll);
    assert_eq!(initial_load(0, false, false), InitialLoad::Seed);
    assert_eq!(initial_load(1, true, true), InitialLoad::Nothing);
    assert_eq!(initial_load(50, false, false), InitialLoad::Nothing);
}

#[test]
fn a_full_load_keeps_to_the_rate_limits() {
    let football = vec![
        LoadStep::Fetch { provider: Provider::FootballData, refresh: Refresh::Roster },
        LoadStep::Wait { seconds: 6 },
        LoadStep::Fetch { provider: Provider::FootballData, refresh: Refresh::Status },
        LoadStep::Wait { seconds: 2 },
    ];
    let basketball = vec![
        LoadStep::Fetch { provider: Provider::BallDontLie, refresh: Refresh::Roster },
        LoadStep::Wait { seconds: 1 },
        LoadStep::Fetch { provider: Provider::BallDontLie, refresh: Refresh::Status },
    ];
    assert_eq!(full_load_plan(true, false), football);
    assert_eq!(full_load_plan(false, true), basketball);
    let mut both = football.clone();
    both.extend(basketball.iter().copied());
    assert_eq!(full_load_plan(true, true), both);
    assert_eq!(full_load_plan(false, false), Vec::new());
}
