use oddsforge::ensemble::{
    adjust_for_rest, combine, confidence, form_based_prediction, form_logit,
    head_to_head_prediction, league_average_prediction, net_rest_days, normalize, shrink_factor,
    win_probability, Outlook, Tally, CONFIDENCE_MAX, CONFIDENCE_MIN,
};
use oddsforge::models::Sport;
use oddsforge::units::{clamp_to_prob, isqrt};

const ONE: u32 = 1_000_000_000;

fn total(o: Outlook) -> u64 {
    o.home as u64 + o.away as u64 + o.draw.unwrap_or(0) as u64
}

fn football_baseline() -> Outlook {
    Outlook { home: 460_000_000, away: 270_000_000, draw: Some(270_000_000) }
}

#[test]
fn league_baselines() {
    assert_eq!(league_average_prediction(Sport::Football), football_baseline());
    assert_eq!(
        league_average_prediction(Sport::Basketball),
        Outlook { home: 550_000_000, away: 450_000_000, draw: None }
    );
    assert_eq!(
        league_average_prediction(Sport::Other),
        Outlook { home: 500_000_000, away: 500_000_000, draw: None }
    );
}

#[test]
fn rating_sub_model() {
    assert_eq!(
        win_probability(759_746_927, Sport::Football),
        Outlook { home: 569_810_195, away: 180_189_805, draw: Some(250_000_000) }
    );
    assert_eq!(
        win_probability(600_000_000, Sport::Football),
        Outlook { home: 450_000_000, away: 300_000_000, draw: Some(250_000_000) }
    );
    assert_eq!(
        win_probability(759_746_927, Sport::Basketball),
        Outlook { home: 759_746_927, away: 240_253_073, draw: None }
    );
    assert_eq!(
        win_probability(0, Sport::Other),
        Outlook { home: 0, away: ONE, draw: None }
    );
    // an expectation above one is read as one
    assert_eq!(
        win_probability(u32::MAX, Sport::Football),
        Outlook { home: 750_000_000, away: 0, draw: Some(250_000_000) }
    );
}

#[test]
fn shrinkage_by_number_of_meetings() {
    // 1 - sqrt(n) / 4, between 0.30 and 0.90
    assert_eq!(shrink_factor(0), 900_000_000);
    assert_eq!(shrink_factor(1), 750_000_000);
    assert_eq!(shrink_factor(2), 646_446_610);
    assert_eq!(shrink_factor(3), 566_987_299);
    assert_eq!(shrink_factor(4), 500_000_000);
    assert_eq!(shrink_factor(5), 440_983_006);
    assert_eq!(shrink_factor(6), 387_627_565);
    assert_eq!(shrink_factor(7), 338_562_173);
    assert_eq!(shrink_factor(8), 300_000_000);
    assert_eq!(shrink_factor(10), 300_000_000);
    assert_eq!(shrink_factor(u64::MAX), 300_000_000);
}

#[test]
fn scenario_five_meetings_shrunk_toward_the_baseline() {
    // 3 home wins, 1 away win, 1 draw: empirical 0.6 / 0.2 / 0.2
    let tally = Tally { home_wins: 3, away_wins: 1, draws: 1 };
    let factor = shrink_factor(5);
    assert!((factor as f64 / 1e9 - 0.441).abs() < 1e-3);
    let o = head_to_head_prediction(tally, Sport::Football);
    assert_eq!(o, Outlook { home: 538_262_379, away: 230_868_810, draw: Some(230_868_810) });
    // 0.6 * 0.559 + 0.46 * 0.441
    assert!((o.home as f64 / 1e9 - 0.538).abs() < 1e-3);
    let by_hand = 0.6 * (1.0 - factor as f64 / 1e9) + 0.46 * (factor as f64 / 1e9);
    assert!((o.home as f64 / 1e9 - by_hand).abs() < 2e-9);
}

#[test]
fn head_to_head_sub_model() {
    // no meetings: the baseline outright
    let none = Tally { home_wins: 0, away_wins: 0, draws: 0 };
    assert_eq!(head_to_head_prediction(none, Sport::Football), football_baseline());
    assert_eq!(
        head_to_head_prediction(none, Sport::Basketball),
        Outlook { home: 550_000_000, away: 450_000_000, draw: None }
    );
    // one meeting moves the baseline by a quarter of the way
    assert_eq!(
        head_to_head_prediction(Tally { home_wins: 1, away_wins: 0, draws: 0 }, Sport::Football),
        Outlook { home: 595_000_000, away: 202_500_000, draw: Some(202_500_000) }
    );
    // ten meetings still leave 0.30 of the baseline
    assert_eq!(
        head_to_head_prediction(Tally { home_wins: 10, away_wins: 0, draws: 0 }, Sport::Basketball),
        Outlook { home: 865_000_000, away: 135_000_000, draw: None }
    );
    // a tie in a sport without draws counts as a meeting, and for nobody
    assert_eq!(
        head_to_head_prediction(Tally { home_wins: 2, away_wins: 2, draws: 1 }, Sport::Basketball),
        Outlook { home: 466_147_450, away: 422_049_150, draw: None }
    );
    assert_eq!(
        head_to_head_prediction(Tally { home_wins: 0, away_wins: 8, draws: 0 }, Sport::Other),
        Outlook { home: 150_000_000, away: 850_000_000, draw: None }
    );
    let huge = Tally { home_wins: u32::MAX, away_wins: u32::MAX, draws: u32::MAX };
    let o = head_to_head_prediction(huge, Sport::Football);
    assert!(o.home <= ONE && o.away <= ONE && o.draw.unwrap() <= ONE);
}

#[test]
fn form_signal() {
    assert_eq!(form_logit(750_000_000, 400_000_000), 1_950_000_000);
    assert_eq!(form_logit(ONE, 0), 3_900_000_000);
    assert_eq!(form_logit(0, ONE), -2_100_000_000);
    assert_eq!(form_logit(500_000_000, 500_000_000), 900_000_000);
    assert_eq!(form_logit(u32::MAX, u32::MAX), 900_000_000);
}

#[test]
fn form_sub_model() {
    // an even match draws most often: 0.10 + 0.22
    assert_eq!(
        form_based_prediction(Sport::Football, 500_000_000),
        Outlook { home: 340_000_000, away: 340_000_000, draw: Some(320_000_000) }
    );
    assert_eq!(
        form_based_prediction(Sport::Football, 800_000_000),
        Outlook { home: 649_600_000, away: 162_400_000, draw: Some(188_000_000) }
    );
    assert_eq!(
        form_based_prediction(Sport::Football, 620_000_000),
        Outlook { home: 454_336_000, away: 278_464_000, draw: Some(267_200_000) }
    );
    // a certain result still leaves 0.10 for the draw
    assert_eq!(
        form_based_prediction(Sport::Football, 0),
        Outlook { home: 0, away: 900_000_000, draw: Some(100_000_000) }
    );
    assert_eq!(
        form_based_prediction(Sport::Football, u32::MAX),
        Outlook { home: 900_000_000, away: 0, draw: Some(100_000_000) }
    );
    assert_eq!(
        form_based_prediction(Sport::Basketball, 640_000_000),
        Outlook { home: 640_000_000, away: 360_000_000, draw: None }
    );
    for base in (0..=1_000u32).map(|i| i * 1_000_000) {
        let o = form_based_prediction(Sport::Football, base);
        let draw = o.draw.unwrap();
        assert!(draw >= 50_000_000 && draw <= 350_000_000);
        assert!(total(o) <= ONE as u64 && total(o) >= ONE as u64 - 2);
    }
}

#[test]
fn scenario_favourite_without_history() {
    // home 1500, away 1400, football, both other sub-models at the baseline
    let expected_home = 759_746_927;
    assert!((expected_home as f64 / 1e9 - 0.7597).abs() < 1e-4);
    let rating = win_probability(expected_home, Sport::Football);
    let baseline = league_average_prediction(Sport::Football);
    let o = combine(rating, baseline, baseline);
    assert_eq!(o, Outlook { home: 514_905_097, away: 225_094_903, draw: Some(260_000_000) });
    // strictly between the baseline and the home share of the non-draw mass
    assert!(o.home > 460_000_000);
    assert!(o.home < expected_home);
    assert!(o.home < rating.home);
    assert_eq!(total(o), ONE as u64);
}

#[test]
fn combination_weighs_and_normalizes() {
    let rating = Outlook { home: 450_000_000, away: 300_000_000, draw: Some(250_000_000) };
    let head_to_head = Outlook { home: 538_262_379, away: 230_868_810, draw: Some(230_868_810) };
    let form = Outlook { home: 454_336_000, away: 278_464_000, draw: Some(267_200_000) };
    assert_eq!(
        combine(rating, head_to_head, form),
        Outlook { home: 477_345_914, away: 274_953_443, draw: Some(247_700_643) }
    );
    // with equal inputs the weights cancel
    let same = Outlook { home: 600_000_000, away: 400_000_000, draw: None };
    assert_eq!(combine(same, same, same), same);
    // a draw that one sub-model lacks is left out
    let o = combine(rating, same, form);
    assert_eq!(o.draw, None);
    assert_eq!(total(o), ONE as u64);
    // nothing to go by: an even split
    let nothing = Outlook { home: 0, away: 0, draw: Some(0) };
    assert_eq!(
        combine(nothing, nothing, nothing),
        Outlook { home: 333_333_333, away: 333_333_334, draw: Some(333_333_333) }
    );
    let blank = Outlook { home: 0, away: 0, draw: None };
    assert_eq!(
        combine(blank, blank, blank),
        Outlook { home: 500_000_000, away: 500_000_000, draw: None }
    );
}

#[test]
fn normalization_closes() {
    assert_eq!(
        normalize(1, 1, Some(1)),
        Outlook { home: 333_333_333, away: 333_333_334, draw: Some(333_333_333) }
    );
    assert_eq!(normalize(3, 1, None), Outlook { home: 750_000_000, away: 250_000_000, draw: None });
    assert_eq!(normalize(0, 5, Some(0)), Outlook { home: 0, away: ONE, draw: Some(0) });
    let big = normalize(u64::MAX, u64::MAX, Some(u64::MAX));
    assert_eq!(total(big), ONE as u64);
    assert_eq!(big.home, 333_333_333);
}

#[test]
fn every_combination_sums_to_one() {
    let values = [0u32, 1, 7, 250_000_000, 333_333_333, 500_000_000, 999_999_999, ONE, u32::MAX];
    for &a in values.iter() {
        for &b in values.iter() {
            for &c in values.iter() {
                let with_draw = Outlook { home: a, away: b, draw: Some(c) };
                let other = Outlook { home: c, away: a, draw: Some(b) };
                let third = Outlook { home: b, away: c, draw: Some(a) };
                assert_eq!(total(combine(with_draw, other, third)), ONE as u64);
                let two_way = Outlook { home: a, away: b, draw: None };
                let o = combine(two_way, Outlook { home: c, away: a, draw: None }, two_way);
                assert_eq!(total(o), ONE as u64);
                for net in -4..=4 {
                    assert_eq!(total(adjust_for_rest(o, Sport::Basketball, net)), ONE as u64);
                }
            }
        }
    }
}

#[test]
fn net_rest_is_held_to_three_days() {
    assert_eq!(net_rest_days(Some(2), Some(0)), 2);
    assert_eq!(net_rest_days(Some(0), Some(2)), -2);
    assert_eq!(net_rest_days(Some(7), Some(0)), 3);
    assert_eq!(net_rest_days(Some(0), Some(7)), -3);
    // rest that is not known counts as three days
    assert_eq!(net_rest_days(None, None), 0);
    assert_eq!(net_rest_days(None, Some(1)), 2);
    assert_eq!(net_rest_days(Some(7), None), 3);
    assert_eq!(net_rest_days(Some(0), None), -3);
    assert_eq!(net_rest_days(Some(u32::MAX), Some(0)), 3);
}

#[test]
fn rest_adjustment_shifts_two_way_forecasts() {
    let o = Outlook { home: 600_000_000, away: 400_000_000, draw: None };
    assert_eq!(
        adjust_for_rest(o, Sport::Basketball, 2),
        Outlook { home: 650_000_000, away: 350_000_000, draw: None }
    );
    assert_eq!(
        adjust_for_rest(o, Sport::Basketball, -3),
        Outlook { home: 525_000_000, away: 475_000_000, draw: None }
    );
    assert_eq!(adjust_for_rest(o, Sport::Basketball, 0), o);
    assert_eq!(
        adjust_for_rest(o, Sport::Other, 1),
        Outlook { home: 625_000_000, away: 375_000_000, draw: None }
    );
    // more than three days count as three
    assert_eq!(adjust_for_rest(o, Sport::Basketball, 9), adjust_for_rest(o, Sport::Basketball, 3));
    // each side keeps at least 0.01 before the two are brought to sum one
    assert_eq!(
        adjust_for_rest(Outlook { home: 990_000_000, away: 10_000_000, draw: None }, Sport::Basketball, 3),
        Outlook { home: 990_697_674, away: 9_302_326, draw: None }
    );
    // football is left alone
    let three_way = football_baseline();
    assert_eq!(adjust_for_rest(three_way, Sport::Football, 3), three_way);
    assert_eq!(adjust_for_rest(o, Sport::Football, 3), o);
}

#[test]
fn confidence_blends_strength_and_agreement() {
    // the scenario of the favourite without history
    assert_eq!(confidence(514_905_097, 569_810_195, 460_000_000, 460_000_000), 576_766_923);
    // decided and unanimous: capped at 0.95
    assert_eq!(confidence(950_000_000, 900_000_000, 900_000_000, 900_000_000), 950_000_000);
    // undecided and split: the floor of 0.40
    assert_eq!(confidence(500_000_000, 0, ONE, 500_000_000), 400_000_000);
    assert_eq!(confidence(600_000_000, 500_000_000, 560_000_000, 530_000_000), 696_675_171);
    assert_eq!(confidence(0, 0, 0, 0), 650_000_000);
    for best in [0u32, 400_000_000, 700_000_000, ONE, u32::MAX] {
        for a in [0u32, 300_000_000, ONE, u32::MAX] {
            for b in [0u32, 600_000_000, ONE] {
                let c = confidence(best, a, b, 450_000_000);
                assert!(c >= CONFIDENCE_MIN && c <= CONFIDENCE_MAX);
            }
        }
    }
}

#[test]
fn integer_square_roots() {
    assert_eq!(isqrt(0), 0);
    assert_eq!(isqrt(1), 1);
    assert_eq!(isqrt(3), 1);
    assert_eq!(isqrt(4), 2);
    assert_eq!(isqrt(99), 9);
    assert_eq!(isqrt(100), 10);
    assert_eq!(isqrt(5_000_000_000_000_000_000), 2_236_067_977);
    assert_eq!(isqrt(u64::MAX), 4_294_967_295);
    assert_eq!(isqrt(4_294_967_295 * 4_294_967_295), 4_294_967_295);
    assert_eq!(isqrt(4_294_967_295 * 4_294_967_295 - 1), 4_294_967_294);
}

#[test]
fn probabilities_are_held_to_one() {
    assert_eq!(clamp_to_prob(0), 0);
    assert_eq!(clamp_to_prob(999_999_999), 999_999_999);
    assert_eq!(clamp_to_prob(ONE), ONE);
    assert_eq!(clamp_to_prob(ONE + 1), ONE);
    assert_eq!(clamp_to_prob(u32::MAX), ONE);
}
