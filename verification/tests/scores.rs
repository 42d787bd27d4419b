use llama_core::sampler::{sample, SampleParams};
use llama_core::scores::{cool, prepare, scale, weaken, Score};
use llama_core::token::Token;

fn options(repeat_penalty: u32, temperature: u32) -> SampleParams {
    SampleParams { top_k: 40, top_p: 1_000_000, temperature, repeat_penalty, repeat_last_n: 64 }
}

/// Probability weights of prepared scores.
fn probabilities(scores: &[Score]) -> Vec<u32> {
    let highest = scores.iter().cloned().max().unwrap() as f64;
    let raised: Vec<f64> =
        scores.iter().map(|score| ((*score as f64 - highest) / 1.0e6).exp()).collect();
    let sum: f64 = raised.iter().sum();
    raised.iter().map(|part| (part / sum * 4_294_967_295.0).round() as u32).collect()
}

#[test]
fn scale_rounds_down() {
    assert_eq!(scale(7, 1, 2), 3);
    assert_eq!(scale(-7, 1, 2), -4);
    assert_eq!(scale(6, 1, 2), 3);
    assert_eq!(scale(-6, 1, 2), -3);
    assert_eq!(scale(0, 5, 7), 0);
    assert_eq!(scale(10, 3, 4), 7);
    assert_eq!(scale(-10, 3, 4), -8);
    assert_eq!(scale(1, 0, 3), 0);
    assert_eq!(scale(-1, 0, 3), 0);
}

#[test]
fn scale_stops_at_the_bounds() {
    assert_eq!(scale(i64::MAX, 2, 1), i64::MAX);
    assert_eq!(scale(i64::MIN, 2, 1), i64::MIN);
    assert_eq!(scale(i64::MAX, 1, 1), i64::MAX);
    assert_eq!(scale(i64::MIN, 1, 1), i64::MIN);
    assert_eq!(scale(i64::MAX, u32::MAX, 1), i64::MAX);
    assert_eq!(scale(i64::MIN, u32::MAX, 1), i64::MIN);
    assert_eq!(scale(i64::MIN, 1, 2), i64::MIN / 2);
    assert_eq!(scale(i64::MAX, 1, 2), i64::MAX / 2);
}

#[test]
fn penalty_divides_positive_scores() {
    assert_eq!(weaken(2_000_000, 1_100_000), 1_818_181);
    assert_eq!(weaken(1_100_000, 1_100_000), 1_000_000);
    assert_eq!(weaken(1, 1_100_000), 0);
    assert_eq!(weaken(3_000_000, 2_000_000), 1_500_000);
}

#[test]
fn penalty_multiplies_other_scores() {
    assert_eq!(weaken(-2_000_000, 1_100_000), -2_200_000);
    assert_eq!(weaken(-1, 1_100_000), -2);
    assert_eq!(weaken(-3, 1_500_000), -5);
    assert_eq!(weaken(0, 1_100_000), 0);
    assert_eq!(weaken(i64::MIN, 2_000_000), i64::MIN);
}

#[test]
fn penalty_of_one_changes_nothing() {
    for score in [i64::MIN, -2_000_000, -1, 0, 1, 7, 2_000_000, i64::MAX] {
        assert_eq!(weaken(score, 1_000_000), score);
    }
}

#[test]
fn penalty_above_one_lowers_every_score_but_zero() {
    for penalty in [1_000_001u32, 1_100_000, 2_000_000, u32::MAX] {
        for score in [-2_000_000i64, -1_000_000, -1, 1, 7, 1_000_000, 2_000_000] {
            assert!(weaken(score, penalty) < score);
        }
        assert_eq!(weaken(0, penalty), 0);
    }
}

#[test]
fn temperature_divides_all_scores() {
    assert_eq!(cool(1_000_000, 800_000), 1_250_000);
    assert_eq!(cool(-1_000_000, 800_000), -1_250_000);
    assert_eq!(cool(1_000_000, 1_000_000), 1_000_000);
    assert_eq!(cool(1_000_000, 2_000_000), 500_000);
    assert_eq!(cool(1, 3_000_000), 0);
    assert_eq!(cool(-1, 3_000_000), -1);
    assert_eq!(cool(0, 1), 0);
    assert_eq!(cool(5, 1), 5_000_000);
    assert_eq!(cool(i64::MAX, 1), i64::MAX);
    assert_eq!(cool(i64::MIN, 1), i64::MIN);
}

#[test]
fn temperature_keeps_the_order_of_scores() {
    let scores: [Score; 7] = [-3_000_000, -1, 0, 1, 2, 999_999, 3_000_000];
    for temperature in [1u32, 800_000, 1_000_000, 3_000_000, u32::MAX] {
        for pair in scores.windows(2) {
            assert!(cool(pair[0], temperature) <= cool(pair[1], temperature));
        }
    }
}

#[test]
fn prepare_weakens_recent_tokens_and_cools_all() {
    let mut scores: Vec<Score> = vec![2_000_000, -1_000_000, 0, 500_000];
    let window: Vec<Token> = vec![0, 1, 2, 1, 9, -4];
    prepare(&mut scores, &window, &options(1_100_000, 800_000));
    assert_eq!(scores, vec![2_272_726, -1_375_000, 0, 625_000]);
}

#[test]
fn prepare_without_recent_tokens_only_cools() {
    let mut scores: Vec<Score> = vec![2_000_000, -1_000_000, 0, 500_000];
    prepare(&mut scores, &Vec::new(), &options(1_100_000, 800_000));
    assert_eq!(scores, vec![2_500_000, -1_250_000, 0, 625_000]);
}

#[test]
fn prepare_with_neutral_options_changes_nothing() {
    let mut scores: Vec<Score> = vec![2_000_000, -1_000_000, 0, 500_000];
    prepare(&mut scores, &vec![0, 1, 2, 3], &options(1_000_000, 1_000_000));
    assert_eq!(scores, vec![2_000_000, -1_000_000, 0, 500_000]);
}

#[test]
fn prepare_of_no_scores_gives_none() {
    let mut scores: Vec<Score> = Vec::new();
    prepare(&mut scores, &vec![0, 1], &SampleParams::new());
    assert_eq!(scores, Vec::<Score>::new());
}

#[test]
fn penalty_lowers_the_share_of_a_recent_token() {
    let raw: Vec<Score> = vec![1_500_000, 1_000_000, -500_000, 250_000];
    for recent in 0..raw.len() {
        let window: Vec<Token> = vec![recent as Token];
        let mut neutral = raw.clone();
        prepare(&mut neutral, &window, &options(1_000_000, 1_000_000));
        let before = probabilities(&neutral);
        let mut shares = vec![before[recent]];
        for penalty in [1_100_000u32, 1_500_000, 3_000_000] {
            let mut weakened = raw.clone();
            prepare(&mut weakened, &window, &options(penalty, 1_000_000));
            let after = probabilities(&weakened);
            assert!(after[recent] < *shares.last().unwrap());
            for other in 0..raw.len() {
                if other != recent {
                    assert!(after[other] > before[other]);
                }
            }
            shares.push(after[recent]);
        }
    }
}

#[test]
fn penalty_lowers_the_count_of_draws_that_pick_a_recent_token() {
    let raw: Vec<Score> = vec![1_000_000, 1_000_000, 1_000_000, 1_000_000];
    let window: Vec<Token> = vec![2];
    let picks = |penalty: u32| -> usize {
        let mut scores = raw.clone();
        let params = options(penalty, 1_000_000);
        prepare(&mut scores, &window, &params);
        let weights = probabilities(&scores);
        (0..1024u32).filter(|step| sample(&weights, &params, step << 22) == Ok(2)).count()
    };
    assert_eq!(picks(1_000_000), 256);
    assert!(picks(1_100_000) < 256);
    assert!(picks(2_000_000) < picks(1_100_000));
}
