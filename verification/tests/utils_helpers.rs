use oddsforge::dates::days_between;
use oddsforge::utils::{
    calculate_elo_change, calculate_prediction_accuracy, calculate_win_percentage, name_is_valid,
    name_winner, normalize_probabilities, odds_to_probability, probability_to_odds,
    results_to_form, simple_hash, validate_league_name, validate_team_name, MatchResult,
    MatchSummary, PredictionSummary,
};
use std::collections::hash_map::DefaultHasher;
use std::hash::{Hash, Hasher};

/// A probability as the library counts it: in billionths.
fn billionths(p: f64) -> u32 {
    (p * 1e9).round() as u32
}

/// Decimal odds as the library counts them: in thousandths.
fn thousandths(odds: f64) -> u32 {
    (odds * 1e3).round() as u32
}

fn probability_to_odds_f(p: f64) -> f64 {
    probability_to_odds(billionths(p)) as f64 / 1e3
}

fn odds_to_probability_f(odds: f64) -> f64 {
    odds_to_probability(thousandths(odds)) as f64 / 1e9
}

fn calculate_win_percentage_f(wins: u32, draws: Option<u32>, losses: u32) -> f64 {
    calculate_win_percentage(wins, draws, losses) as f64 / 1e6
}

#[test]
fn test_probability_to_odds() {
    assert_eq!(probability_to_odds_f(0.5), 2.0);
    assert_eq!(probability_to_odds_f(0.25), 4.0);
    assert!(probability_to_odds_f(0.0) > 100.0);
}

#[test]
fn test_odds_to_probability() {
    assert!((odds_to_probability_f(2.0) - 0.5).abs() < 0.001);
    assert!((odds_to_probability_f(4.0) - 0.25).abs() < 0.001);
}

#[test]
fn test_normalize_probabilities() {
    let probs = vec![billionths(0.4), billionths(0.3), billionths(0.2)];
    let normalized = normalize_probabilities(probs);
    let sum: f64 = normalized.iter().map(|&p| p as f64 / 1e9).sum();
    assert!((sum - 1.0).abs() < 0.001);
}

#[test]
fn test_calculate_win_percentage() {
    assert_eq!(calculate_win_percentage_f(3, Some(1), 1), 60.0);
    assert_eq!(calculate_win_percentage_f(0, None, 0), 0.0);
}

#[test]
fn probability_to_odds_exact_values() {
    assert_eq!(probability_to_odds(500_000_000), 2_000);
    assert_eq!(probability_to_odds(250_000_000), 4_000);
    assert_eq!(probability_to_odds(300_000_000), 3_333);
    assert_eq!(probability_to_odds(0), 1_000_000);
    assert_eq!(probability_to_odds(1_000_000_000), 1_000_000);
    assert_eq!(probability_to_odds(u32::MAX), 1_000_000);
    assert_eq!(probability_to_odds(1), 1_000_000_000_000);
    assert_eq!(probability_to_odds(999_999_999), 1_000);
}

#[test]
fn odds_to_probability_exact_values() {
    assert_eq!(odds_to_probability(2_000), 500_000_000);
    assert_eq!(odds_to_probability(4_000), 250_000_000);
    assert_eq!(odds_to_probability(3_000), 333_333_333);
    // odds of 1.0 or less, and odds barely above it, are capped at 0.99
    assert_eq!(odds_to_probability(1_000), 990_000_000);
    assert_eq!(odds_to_probability(0), 990_000_000);
    assert_eq!(odds_to_probability(1_001), 990_000_000);
    assert_eq!(odds_to_probability(1_010), 990_000_000);
    assert_eq!(odds_to_probability(1_011), 989_119_683);
    assert_eq!(odds_to_probability(u32::MAX), 232);
}

#[test]
fn normalize_probabilities_exact_values() {
    assert_eq!(
        normalize_probabilities(vec![400_000_000, 300_000_000, 200_000_000]),
        vec![444_444_444, 333_333_333, 222_222_222]
    );
    assert_eq!(normalize_probabilities(vec![1, 1]), vec![500_000_000, 500_000_000]);
    assert_eq!(normalize_probabilities(vec![7]), vec![1_000_000_000]);
    // a list that sums to zero stays as it is
    assert_eq!(normalize_probabilities(vec![0, 0, 0]), vec![0, 0, 0]);
    assert_eq!(normalize_probabilities(vec![]), Vec::<u32>::new());
    assert_eq!(
        normalize_probabilities(vec![u32::MAX, u32::MAX, 0]),
        vec![500_000_000, 500_000_000, 0]
    );
}

#[test]
fn win_percentage_exact_values() {
    assert_eq!(calculate_win_percentage(3, Some(1), 1), 60_000_000);
    assert_eq!(calculate_win_percentage(1, None, 2), 33_333_333);
    assert_eq!(calculate_win_percentage(5, Some(0), 0), 100_000_000);
    assert_eq!(calculate_win_percentage(0, Some(4), 0), 0);
    assert_eq!(calculate_win_percentage(0, None, 0), 0);
    assert_eq!(calculate_win_percentage(u32::MAX, Some(u32::MAX), u32::MAX), 33_333_333);
}

#[test]
fn elo_change_exact_values() {
    // 32 points times (1 - 0.76) = 7.68 points
    assert_eq!(calculate_elo_change(760_000_000, 1_000_000_000, 32), 7_680_000);
    assert_eq!(calculate_elo_change(760_000_000, 0, 32), -24_320_000);
    assert_eq!(calculate_elo_change(500_000_000, 500_000_000, 32), 0);
    assert_eq!(calculate_elo_change(1, 0, 32), 0);
}

#[test]
fn days_between_counts_whole_days() {
    assert_eq!(days_between(0, 86_400), 1);
    assert_eq!(days_between(0, 86_399), 0);
    assert_eq!(days_between(0, 3 * 86_400 + 5), 3);
    assert_eq!(days_between(86_400, 0), -1);
    assert_eq!(days_between(86_399, 0), 0);
    assert_eq!(days_between(1_700_000_000, 1_700_000_000), 0);
    assert_eq!(days_between(i64::MIN, i64::MAX), 213_503_982_334_601);
    assert_eq!(days_between(i64::MAX, i64::MIN), -213_503_982_334_601);
}

#[test]
fn team_names_are_validated() {
    assert!(validate_team_name("Arsenal"));
    assert!(validate_team_name("  Arsenal  "));
    assert!(!validate_team_name(""));
    assert!(!validate_team_name("   "));
    assert!(!validate_team_name("\t\n"));
    let exactly: String = "a".repeat(100);
    let too_long: String = "a".repeat(101);
    assert!(validate_team_name(&exactly));
    assert!(!validate_team_name(&too_long));
    // the limit counts bytes, not characters
    let umlauts: String = "ü".repeat(51);
    assert!(!validate_team_name(&umlauts));
    assert!(name_is_valid("x", 100));
    assert!(!name_is_valid("x", 101));
    assert!(!name_is_valid("", 0));
}

#[test]
fn league_names_are_validated() {
    assert!(validate_league_name("EPL"));
    assert!(validate_league_name("Champions League"));
    assert!(validate_league_name("NBA"));
    assert!(validate_league_name("Premier League"));
    assert!(!validate_league_name("epl"));
    assert!(!validate_league_name("La Liga"));
    assert!(!validate_league_name(""));
}

#[test]
fn simple_hash_is_the_hex_of_the_default_hash() {
    for input in ["", "arsenal", "Arsenal vs Chelsea 2025-01-01", "ünïcödé"] {
        let mut hasher = DefaultHasher::new();
        input.hash(&mut hasher);
        assert_eq!(simple_hash(input), format!("{:x}", hasher.finish()));
        assert_eq!(simple_hash(input), simple_hash(input));
    }
    assert_ne!(simple_hash("a"), simple_hash("b"));
    assert_ne!(simple_hash("a"), "a");
}

#[test]
fn form_string_takes_the_latest_five() {
    let results = vec![('W', 10), ('L', 50), ('D', 30), ('W', 70), ('L', 20), ('D', 60), ('W', 40)];
    assert_eq!(results_to_form(&results), "WDLWD");
    assert_eq!(results_to_form(&vec![('W', 1), ('L', 2)]), "LW");
    assert_eq!(results_to_form(&vec![]), "");
    // results of one instant keep their order
    assert_eq!(results_to_form(&vec![('A', 5), ('B', 5), ('C', 9), ('D', 5)]), "CABD");
}

fn summary(prediction: Option<(u32, u32, Option<u32>)>, winner: Option<&str>) -> MatchSummary {
    MatchSummary {
        home_team: "Home".to_string(),
        away_team: "Away".to_string(),
        date: 1_700_000_000,
        our_prediction: prediction.map(|(h, a, d)| PredictionSummary {
            home_win_prob: h,
            away_win_prob: a,
            draw_prob: d,
            confidence: 600_000_000,
        }),
        result: winner.map(|w| MatchResult { home_score: 1, away_score: 0, winner: w.to_string() }),
    }
}

#[test]
fn predicted_winner_follows_the_largest_probability() {
    let p = |h: u32, a: u32, d: Option<u32>| PredictionSummary {
        home_win_prob: h,
        away_win_prob: a,
        draw_prob: d,
        confidence: 0,
    };
    assert_eq!(name_winner(&p(500, 300, Some(200))), "home");
    assert_eq!(name_winner(&p(400, 200, Some(400))), "draw");
    assert_eq!(name_winner(&p(300, 200, Some(500))), "draw");
    assert_eq!(name_winner(&p(200, 500, Some(300))), "away");
    assert_eq!(name_winner(&p(200, 400, Some(400))), "draw");
    assert_eq!(name_winner(&p(400, 400, Some(200))), "draw");
    assert_eq!(name_winner(&p(600, 400, None)), "home");
    assert_eq!(name_winner(&p(400, 600, None)), "away");
    assert_eq!(name_winner(&p(500, 500, None)), "draw");
}

#[test]
fn prediction_accuracy_counts_judged_matches_only() {
    let summaries = vec![
        summary(Some((600, 400, None)), Some("home")),
        summary(Some((600, 400, None)), Some("away")),
        summary(Some((300, 300, Some(400))), Some("draw")),
        summary(None, Some("home")),
        summary(Some((600, 400, None)), None),
    ];
    assert_eq!(calculate_prediction_accuracy(&summaries), 666_666_666);
    assert_eq!(calculate_prediction_accuracy(&vec![]), 0);
    assert_eq!(calculate_prediction_accuracy(&vec![summary(None, None)]), 0);
    assert_eq!(
        calculate_prediction_accuracy(&vec![summary(Some((600, 400, None)), Some("home"))]),
        1_000_000_000
    );
}
