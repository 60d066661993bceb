use bluetooth_devices::device::DeviceRecord;
use bluetooth_devices::resolve::{
    rank_candidates, resolve, resolve_scores, score_devices, score_name, select, Resolution,
    ScoredCandidate, MATCH_LIMIT,
};
use fuzzy_matcher::skim::SkimMatcherV2;
use fuzzy_matcher::FuzzyMatcher;

fn device(name: &str, connected: bool) -> DeviceRecord {
    DeviceRecord {
        address: format!("addr-{}", name.len()),
        name: name.to_string(),
        connected,
        battery: None,
    }
}

fn fixture() -> Vec<DeviceRecord> {
    vec![device("John's AirPods Pro", false), device("Sony Headphones", true)]
}

fn candidate(index: usize, score: i64) -> ScoredCandidate {
    ScoredCandidate { index, score }
}

#[test]
fn score_is_the_skim_score_of_the_lowered_texts() {
    let matcher = SkimMatcherV2::default();
    let expected = matcher.fuzzy_match("john's airpods pro", "airpods");
    assert!(expected.is_some());
    assert_eq!(score_name("John's AirPods Pro", "airpods"), expected);
    assert_eq!(score_name("John's AirPods Pro", "AirPods"), expected);
    assert_ne!(score_name("John's AirPods Pro", "airpods"), score_name("John's AirPods Pro", "pro"));
}

#[test]
fn score_differs_from_what_the_matcher_gives_without_lowering() {
    let matcher = SkimMatcherV2::default();
    assert_eq!(matcher.fuzzy_match("John's AirPods Pro", "AIRPODS"), None);
    assert!(score_name("John's AirPods Pro", "AIRPODS").is_some());
}

#[test]
fn query_case_does_not_change_the_score() {
    let lower = score_name("John's AirPods Pro", "airpods");
    let upper = score_name("John's AirPods Pro", "AIRPODS");
    assert!(lower.unwrap() > 0);
    assert_eq!(upper, lower);
    assert_eq!(score_name("JOHN'S AIRPODS PRO", "AiRpOdS"), lower);
    assert_eq!(score_name("ÉCOUTEURS", "écouteurs"), score_name("écouteurs", "ÉCOUTEURS"));
}

#[test]
fn name_without_the_query_as_subsequence_has_no_score() {
    assert_eq!(score_name("John's AirPods Pro", "xyz123"), None);
    assert_eq!(score_name("Sony Headphones", "airpods"), None);
    assert_eq!(score_name("", "a"), None);
}

#[test]
fn empty_query_scores_zero_and_selects_nothing() {
    assert_eq!(score_name("Sony Headphones", ""), Some(0));
    assert_eq!(resolve(&fixture(), ""), Resolution::NoMatch);
}

#[test]
fn score_devices_keeps_list_order() {
    let devices = fixture();
    let scores = score_devices(&devices, "on");
    assert_eq!(scores.len(), 2);
    assert_eq!(scores[0], score_name("John's AirPods Pro", "on"));
    assert_eq!(scores[1], score_name("Sony Headphones", "on"));
    assert_eq!(score_devices(&vec![], "on"), vec![]);
}

#[test]
fn query_airpods_selects_johns_airpods_pro() {
    let devices = fixture();
    let resolution = resolve(&devices, "airpods");
    let score = score_name("John's AirPods Pro", "airpods").unwrap();
    assert_eq!(resolution, Resolution::Unique(candidate(0, score)));
    assert_eq!(resolution.device(&devices).map(|d| d.name.as_str()), Some("John's AirPods Pro"));
    assert_eq!(resolution.device(&devices).map(|d| d.connected), Some(false));
}

#[test]
fn query_without_a_plausible_match_selects_nothing() {
    let devices = fixture();
    let resolution = resolve(&devices, "xyz123");
    assert_eq!(resolution, Resolution::NoMatch);
    assert_eq!(resolution.selected(), None);
    assert_eq!(resolution.device(&devices), None);
}

#[test]
fn resolution_is_the_same_for_any_case_of_the_query() {
    let devices = fixture();
    assert_eq!(resolve(&devices, "AIRPODS"), resolve(&devices, "airpods"));
    assert_eq!(resolve(&devices, "SoNy"), resolve(&devices, "sony"));
}

#[test]
fn several_matches_are_all_listed_and_the_best_is_selected() {
    let devices = vec![
        device("Living Room Speaker", true),
        device("Sony Headphones", true),
        device("John's AirPods Pro", false),
        device("Phone", false),
    ];
    let resolution = resolve(&devices, "on");
    let scores = score_devices(&devices, "on");
    let mut expected: Vec<ScoredCandidate> = scores
        .iter()
        .enumerate()
        .filter_map(|(index, score)| match score {
            Some(score) if *score > 0 => Some(candidate(index, *score)),
            _ => None,
        })
        .collect();
    expected.sort_by_key(|c| -c.score);
    assert!(expected.len() >= 2);
    match &resolution {
        Resolution::Ambiguous { chosen, ranked } => {
            assert_eq!(ranked, &expected);
            assert_eq!(*chosen, expected[0]);
        }
        other => panic!("several candidates were expected, not {:?}", other),
    }
    assert_eq!(resolution.selected(), Some(expected[0]));
    assert_eq!(resolution.device(&devices), Some(&devices[expected[0].index]));
}

#[test]
fn duplicate_names_resolve_to_the_first_seen() {
    let devices = vec![device("Buds", false), device("Buds", true), device("Buds", false)];
    let score = score_name("Buds", "buds").unwrap();
    assert_eq!(
        resolve(&devices, "buds"),
        Resolution::Ambiguous {
            chosen: candidate(0, score),
            ranked: vec![candidate(0, score), candidate(1, score), candidate(2, score)],
        }
    );
}

#[test]
fn ranking_is_by_falling_score_and_stable() {
    let scores = vec![Some(5), None, Some(9), Some(5), Some(0), Some(9), Some(-3), Some(12)];
    assert_eq!(
        rank_candidates(&scores),
        vec![candidate(7, 12), candidate(2, 9), candidate(5, 9), candidate(0, 5), candidate(3, 5)]
    );
}

#[test]
fn ranking_agrees_with_a_stable_sort() {
    let mut seed: u64 = 0x9E3779B97F4A7C15;
    for round in 0..200usize {
        let mut scores: Vec<Option<i64>> = Vec::new();
        for _ in 0..(round % 17) {
            seed = seed.wrapping_mul(6364136223846793005).wrapping_add(1442695040888963407);
            let draw = (seed >> 33) % 9;
            scores.push(if draw == 0 { None } else { Some(draw as i64 - 3) });
        }
        let mut expected: Vec<ScoredCandidate> = scores
            .iter()
            .enumerate()
            .filter_map(|(index, score)| match score {
                Some(score) if *score > 0 => Some(candidate(index, *score)),
                _ => None,
            })
            .collect();
        expected.sort_by_key(|c| -c.score);
        assert_eq!(rank_candidates(&scores), expected);
    }
}

#[test]
fn ranking_leaves_out_scores_that_are_not_positive() {
    assert_eq!(rank_candidates(&vec![]), vec![]);
    assert_eq!(rank_candidates(&vec![None, None]), vec![]);
    assert_eq!(rank_candidates(&vec![Some(0), Some(-1), Some(i64::MIN)]), vec![]);
    assert_eq!(rank_candidates(&vec![Some(i64::MAX), Some(1)]), vec![candidate(0, i64::MAX), candidate(1, 1)]);
}

#[test]
fn selection_follows_the_number_of_candidates() {
    assert_eq!(select(vec![]), Resolution::NoMatch);
    assert_eq!(select(vec![candidate(3, 7)]), Resolution::Unique(candidate(3, 7)));
    assert_eq!(
        select(vec![candidate(3, 7), candidate(1, 2)]),
        Resolution::Ambiguous {
            chosen: candidate(3, 7),
            ranked: vec![candidate(3, 7), candidate(1, 2)],
        }
    );
}

#[test]
fn resolve_scores_gives_each_outcome() {
    assert_eq!(resolve_scores(&vec![None, Some(0), Some(-4)]), Resolution::NoMatch);
    assert_eq!(resolve_scores(&vec![None, Some(4), None]), Resolution::Unique(candidate(1, 4)));
    assert_eq!(
        resolve_scores(&vec![Some(4), Some(9), Some(9)]),
        Resolution::Ambiguous {
            chosen: candidate(1, 9),
            ranked: vec![candidate(1, 9), candidate(2, 9), candidate(0, 4)],
        }
    );
}

#[test]
fn selected_device_is_looked_up_with_a_bounds_check() {
    let devices = fixture();
    assert_eq!(Resolution::Unique(candidate(1, 5)).device(&devices), Some(&devices[1]));
    assert_eq!(Resolution::Unique(candidate(2, 5)).device(&devices), None);
    assert_eq!(Resolution::NoMatch.device(&devices), None);
}

#[test]
fn text_longer_than_the_match_limit_has_no_score() {
    let at_limit = "a".repeat(MATCH_LIMIT);
    let over_limit = "a".repeat(MATCH_LIMIT + 1);
    assert!(score_name(&at_limit, "a").unwrap() > 0);
    assert_eq!(score_name(&over_limit, "a"), None);
    assert_eq!(score_name("a", &over_limit), None);
    let devices = vec![device(&over_limit, true), device("a", true)];
    assert_eq!(resolve(&devices, "a").selected().map(|c| c.index), Some(1));
}
