use oddsforge::ensemble::{adjust_for_rest, combine, normalize, Outlook};
use oddsforge::models::{Match, MatchStatus, Sport, Team};
use oddsforge::quotes::normalize_name;
use oddsforge::rating::{plan_replay, replay_skips, ReplaySkip, SkipReason};
use oddsforge::text::white_space;
use oddsforge::utils::validate_team_name;

const ONE: u128 = 1_000_000_000;

/// Checks that `leg` lies within one billionth of `weight / total`.
fn assert_within_a_billionth(leg: u32, weight: u128, total: u128) {
    let leg = leg as u128;
    assert!(leg * total < weight * ONE + total, "{} of {}/{}", leg, weight, total);
    assert!(weight * ONE < (leg + 1) * total, "{} of {}/{}", leg, weight, total);
}

#[test]
fn normalization_keeps_every_outcome_within_a_billionth_of_its_share() {
    let sums = [0u64, 1, 2, 3, 7, 29, 1_000, 333_333_333, 4_600_000_000, 9_999_999_999, u64::MAX];
    for &h in sums.iter() {
        for &a in sums.iter() {
            for d in sums.iter().map(|&d| Some(d)).chain([None]) {
                let total = h as u128 + a as u128 + d.unwrap_or(0) as u128;
                let o = normalize(h, a, d);
                assert_eq!(o.home as u128 + o.away as u128 + o.draw.unwrap_or(0) as u128, ONE);
                assert_eq!(o.draw.is_some(), d.is_some());
                if total > 0 {
                    assert_within_a_billionth(o.home, h as u128, total);
                    assert_within_a_billionth(o.away, a as u128, total);
                    assert_within_a_billionth(o.draw.unwrap_or(0), d.unwrap_or(0) as u128, total);
                }
            }
        }
    }
}

#[test]
fn leftover_billionths_of_a_combination() {
    // sevenths: 1/7, 2/7 and 4/7 leave one billionth, which goes to the
    // outcome with the largest rest
    assert_eq!(
        normalize(1, 4, Some(2)),
        Outlook { home: 142_857_143, away: 571_428_571, draw: Some(285_714_286) }
    );
    assert_eq!(
        normalize(4, 2, Some(1)),
        Outlook { home: 571_428_571, away: 285_714_286, draw: Some(142_857_143) }
    );
    // two billionths are left over, and the smallest rest goes without
    assert_eq!(
        normalize(14, 7, Some(8)),
        Outlook { home: 482_758_621, away: 241_379_310, draw: Some(275_862_069) }
    );
    // equal rests: the later outcome is served first
    assert_eq!(
        normalize(1, 1, Some(1)),
        Outlook { home: 333_333_333, away: 333_333_334, draw: Some(333_333_333) }
    );
    assert_eq!(normalize(1, 1, None), Outlook { home: 500_000_000, away: 500_000_000, draw: None });
    assert_eq!(normalize(1, 2, None), Outlook { home: 333_333_333, away: 666_666_667, draw: None });
    assert_eq!(normalize(2, 1, None), Outlook { home: 666_666_667, away: 333_333_333, draw: None });
}

#[test]
fn combination_and_rest_adjustment_round_to_the_nearest_side() {
    let rating = Outlook { home: 450_000_000, away: 300_000_000, draw: Some(250_000_000) };
    let head_to_head = Outlook { home: 538_262_379, away: 230_868_810, draw: Some(230_868_810) };
    let form = Outlook { home: 454_336_000, away: 278_464_000, draw: Some(267_200_000) };
    let o = combine(rating, head_to_head, form);
    let (h, a, d) = (4_773_459_137u128, 2_749_534_430u128, 2_477_006_430u128);
    assert_within_a_billionth(o.home, h, h + a + d);
    assert_within_a_billionth(o.away, a, h + a + d);
    assert_within_a_billionth(o.draw.unwrap(), d, h + a + d);
    // 0.99 + 0.075 and 0.01 held at the floor: 1065 and 10 of 1075 parts
    let r = adjust_for_rest(
        Outlook { home: 990_000_000, away: 10_000_000, draw: None },
        Sport::Basketball,
        3,
    );
    assert_within_a_billionth(r.home, 1_065, 1_075);
    assert_within_a_billionth(r.away, 10, 1_075);
    assert_eq!(r.home + r.away, 1_000_000_000);
}

#[test]
fn white_space_is_what_the_standard_library_calls_white_space() {
    let mut count = 0;
    for code in 0..=0x10FFFFu32 {
        if let Some(c) = char::from_u32(code) {
            assert_eq!(white_space(c), c.is_whitespace(), "U+{:04X}", code);
            if white_space(c) {
                count += 1;
            }
        }
    }
    assert_eq!(count, 25);
    assert!(white_space(' '));
    assert!(white_space('\t'));
    assert!(white_space('\u{00A0}'));
    assert!(white_space('\u{3000}'));
    assert!(!white_space('a'));
    assert!(!white_space('\u{200B}'));
    assert!(!white_space('\u{180E}'));
}

#[test]
fn names_of_white_space_only_are_blank() {
    for code in 0..=0x10FFFFu32 {
        if let Some(c) = char::from_u32(code) {
            let name = c.to_string();
            assert_eq!(validate_team_name(&name), !c.is_whitespace(), "U+{:04X}", code);
        }
    }
    assert!(!validate_team_name("\u{2003}\u{00A0} \u{3000}"));
    assert!(validate_team_name("\u{2003}x\u{00A0}"));
    assert!(validate_team_name("\u{200B}"));
}

#[test]
fn words_are_split_at_any_white_space() {
    assert_eq!(normalize_name("Real\u{00A0}Madrid"), "real madrid");
    assert_eq!(normalize_name("\u{2003}Real\t\n Madrid\u{3000}"), "real madrid");
    assert_eq!(normalize_name("Real\u{200B}Madrid"), "real\u{200B}madrid");
    assert_eq!(normalize_name(" \u{2028} "), "");
}

fn team(id: &str) -> Team {
    Team {
        id: id.to_string(),
        name: id.to_uppercase(),
        sport: Sport::Football,
        league: "EPL".to_string(),
        logo_url: None,
        elo_rating: 1_200_000_000,
    }
}

fn game(home: &str, away: &str, status: MatchStatus, score: (Option<i32>, Option<i32>)) -> Match {
    Match {
        id: format!("{}-{}", home, away),
        home_team_id: home.to_string(),
        away_team_id: away.to_string(),
        home_team_name: home.to_uppercase(),
        away_team_name: away.to_uppercase(),
        sport: Sport::Football,
        league: "EPL".to_string(),
        match_date: 0,
        status,
        home_score: score.0,
        away_score: score.1,
    }
}

#[test]
fn skipped_matches_are_listed_with_their_reason() {
    let teams = vec![team("a"), team("b")];
    let fin = MatchStatus::Finished;
    let matches = vec![
        game("a", "b", fin, (Some(1), Some(0))),
        game("a", "b", fin, (None, Some(0))),
        game("a", "b", fin, (Some(1), None)),
        game("x", "b", fin, (Some(1), Some(0))),
        game("a", "y", fin, (Some(1), Some(0))),
        game("x", "y", fin, (Some(1), Some(0))),
        // a missing score is told before a missing team
        game("x", "y", fin, (None, None)),
        // matches that are not finished are not results, and not skipped
        game("a", "b", MatchStatus::Scheduled, (None, None)),
        game("x", "y", MatchStatus::Live, (None, None)),
        game("b", "a", fin, (Some(2), Some(2))),
    ];
    assert_eq!(
        replay_skips(&teams, &matches),
        vec![
            ReplaySkip { match_row: 1, reason: SkipReason::MissingScore },
            ReplaySkip { match_row: 2, reason: SkipReason::MissingScore },
            ReplaySkip { match_row: 3, reason: SkipReason::UnknownHomeTeam },
            ReplaySkip { match_row: 4, reason: SkipReason::UnknownAwayTeam },
            ReplaySkip { match_row: 5, reason: SkipReason::UnknownHomeTeam },
            ReplaySkip { match_row: 6, reason: SkipReason::MissingScore },
        ]
    );
    // every finished match is replayed or skipped, and none is both
    let replayed: Vec<usize> = plan_replay(&teams, &matches).iter().map(|s| s.match_row).collect();
    assert_eq!(replayed, vec![0, 9]);
    assert!(replay_skips(&teams, &Vec::new()).is_empty());
    assert!(replay_skips(&Vec::new(), &Vec::new()).is_empty());
}
