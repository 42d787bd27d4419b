use llama_core::error::Error;
use llama_core::generate::{Action, Event, GenConfig, Generator, Phase, Step};
use llama_core::token::Token;

fn config(n_ctx: usize, n_keep: usize, batch_limit: usize, repeat_last_n: usize) -> GenConfig {
    GenConfig { n_ctx, n_keep, batch_limit, repeat_last_n }
}

fn evaluate(tokens: &[Token], n_past: usize, truncated: bool) -> Action {
    Action::Evaluate { tokens: tokens.to_vec(), n_past, truncated }
}

fn sample_from(window: &[Token]) -> Action {
    Action::Sample { window: window.to_vec() }
}

const OK: Event = Event::Evaluated { status: 0 };

/// Runs a request against an engine that always succeeds and a sampler that
/// counts up from 100. Returns every action that was handed out.
fn run(generator: &mut Generator) -> Vec<Action> {
    let mut actions = Vec::new();
    let mut next: Token = 100;
    let mut action = generator.action();
    loop {
        let event = match &action {
            Action::Evaluate { .. } => OK,
            Action::Sample { .. } => {
                next += 1;
                Event::Sampled { token: next - 1 }
            }
            Action::Stop | Action::Abort { .. } => {
                actions.push(action);
                return actions;
            }
        };
        actions.push(action);
        action = generator.step(event).action;
    }
}

#[test]
fn default_options_keep_nothing_and_batch_by_eight() {
    let config = GenConfig::with_window(512);
    assert_eq!(config, GenConfig { n_ctx: 512, n_keep: 0, batch_limit: 8, repeat_last_n: 64 });
    assert!(config.is_representable());
}

#[test]
fn options_that_overflow_are_not_representable() {
    assert!(!config(usize::MAX, 0, 8, 64).is_representable());
    // a batch limit of zero counts as one
    assert!(!config(usize::MAX, 0, 0, 64).is_representable());
    assert!(config(usize::MAX - 1, 0, 0, 64).is_representable());
    assert!(config(usize::MAX - 1, 0, 1, 64).is_representable());
    assert!(!config(usize::MAX - 1, 0, 2, 64).is_representable());
    assert!(config(usize::MAX - 8, 0, 8, 64).is_representable());
    assert!(!config(usize::MAX - 8, 1, 8, 64).is_representable());
    assert!(!config(1, usize::MAX, 1, 64).is_representable());
}

#[test]
fn request_with_options_that_overflow_is_not_started() {
    assert!(Generator::try_new(config(usize::MAX, 0, 8, 64), vec![1], 1).is_none());
    let mut generator = Generator::try_new(config(512, 0, 8, 64), vec![1], 1).unwrap();
    assert_eq!(generator.action(), evaluate(&[1], 0, false));
    assert_eq!(generator.step(OK).action, sample_from(&[1]));
}

#[test]
fn prompt_is_consumed_before_sampling() {
    let prompt: Vec<Token> = (1..=20).collect();
    let mut generator = Generator::new(config(512, 0, 8, 64), prompt.clone(), 1);
    assert_eq!(generator.action(), evaluate(&prompt[..8], 0, false));
    assert_eq!(generator.consumed(), 8);
    assert_eq!(generator.step(OK).action, evaluate(&prompt[8..16], 8, false));
    assert_eq!(generator.step(OK).action, evaluate(&prompt[16..], 16, false));
    assert_eq!(generator.consumed(), 20);
    assert_eq!(generator.phase(), Phase::Evaluating);
    let step = generator.step(OK);
    assert_eq!(step, Step { emitted: None, action: sample_from(&prompt) });
    assert_eq!(generator.phase(), Phase::Sampling);
    assert_eq!(generator.window().n_past(), 20);
}

#[test]
fn emits_exactly_n_predict_tokens() {
    for n_predict in [0usize, 1, 2, 7, 40] {
        for prompt_len in [0usize, 1, 8, 9, 30] {
            let prompt: Vec<Token> = (0..prompt_len as Token).collect();
            let mut generator = Generator::new(config(16, 0, 4, 8), prompt, n_predict);
            let actions = run(&mut generator);
            assert_eq!(actions.last(), Some(&Action::Stop));
            assert_eq!(generator.phase(), Phase::Finished);
            assert_eq!(generator.failure(), None);
            assert!(generator.is_over());
            assert_eq!(generator.remaining(), 0);
            assert_eq!(generator.output().len(), n_predict);
            let expected: Vec<Token> = (100..100 + n_predict as Token).collect();
            assert_eq!(generator.into_output(), expected);
        }
    }
}

#[test]
fn sampled_token_is_emitted_and_evaluated_next() {
    let mut generator = Generator::new(config(512, 0, 8, 64), vec![1, 2, 3], 2);
    assert_eq!(generator.action(), evaluate(&[1, 2, 3], 0, false));
    assert_eq!(generator.step(OK).action, sample_from(&[1, 2, 3]));
    let step = generator.step(Event::Sampled { token: 42 });
    assert_eq!(step.emitted, Some(42));
    assert_eq!(step.action, evaluate(&[42], 3, false));
    assert_eq!(generator.output(), &vec![42]);
    assert_eq!(generator.remaining(), 1);
    assert_eq!(generator.window().history().to_vec(), vec![1, 2, 3, 42]);
    assert_eq!(generator.step(OK).action, sample_from(&[1, 2, 3, 42]));
    let step = generator.step(Event::Sampled { token: 43 });
    assert_eq!(step, Step { emitted: Some(43), action: Action::Stop });
    assert_eq!(generator.output(), &vec![42, 43]);
    // the last token is never evaluated
    assert_eq!(generator.window().n_past(), 4);
}

#[test]
fn evaluation_failure_aborts_before_any_output() {
    let mut generator = Generator::new(config(512, 0, 8, 64), vec![1, 2, 3], 2);
    let step = generator.step(Event::Evaluated { status: 7 });
    assert_eq!(step, Step { emitted: None, action: Action::Abort { status: 7 } });
    assert_eq!(generator.phase(), Phase::Failed { status: 7 });
    assert_eq!(generator.failure(), Some(Error::Evaluate { status: 7 }));
    assert!(generator.is_over());
    assert_eq!(generator.output().len(), 0);
    // nothing is retried and nothing more is taken
    assert_eq!(generator.step(OK).action, Action::Abort { status: 7 });
    assert_eq!(generator.step(Event::Sampled { token: 1 }).action, Action::Abort { status: 7 });
    assert_eq!(generator.output().len(), 0);
    assert_eq!(generator.window().n_past(), 0);
}

#[test]
fn evaluation_failure_keeps_what_was_emitted() {
    let mut generator = Generator::new(config(512, 0, 8, 64), vec![1], 3);
    generator.step(OK);
    assert_eq!(generator.step(Event::Sampled { token: 5 }).emitted, Some(5));
    let step = generator.step(Event::Evaluated { status: -1 });
    assert_eq!(step.action, Action::Abort { status: -1 });
    assert_eq!(generator.output(), &vec![5]);
    assert!(generator.output().len() < 3);
    assert_eq!(generator.remaining(), 2);
}

#[test]
fn empty_prompt_samples_at_once() {
    let mut generator = Generator::new(config(512, 0, 8, 64), Vec::new(), 2);
    assert_eq!(generator.action(), sample_from(&[]));
    assert_eq!(generator.step(Event::Sampled { token: 4 }).action, evaluate(&[4], 0, false));
    assert_eq!(generator.step(OK).action, sample_from(&[4]));
    assert_eq!(generator.step(Event::Sampled { token: 5 }).action, Action::Stop);
    assert_eq!(generator.into_output(), vec![4, 5]);
}

#[test]
fn zero_budget_stops_at_once() {
    let mut generator = Generator::new(config(512, 0, 8, 64), vec![1, 2], 0);
    assert_eq!(generator.action(), Action::Stop);
    assert_eq!(generator.phase(), Phase::Finished);
    assert_eq!(generator.consumed(), 0);
    assert_eq!(generator.step(OK), Step { emitted: None, action: Action::Stop });
    assert_eq!(generator.into_output(), Vec::<Token>::new());
}

#[test]
fn report_that_is_not_awaited_is_ignored() {
    let mut generator = Generator::new(config(512, 0, 8, 64), vec![1], 1);
    let step = generator.step(Event::Sampled { token: 9 });
    assert_eq!(step, Step { emitted: None, action: evaluate(&[1], 0, false) });
    assert_eq!(generator.output().len(), 0);
    assert_eq!(generator.step(OK).action, sample_from(&[1]));
    let step = generator.step(OK);
    assert_eq!(step, Step { emitted: None, action: sample_from(&[1]) });
    assert_eq!(generator.window().n_past(), 1);
}

#[test]
fn batch_limit_of_zero_acts_as_one() {
    let mut generator = Generator::new(config(512, 0, 0, 64), vec![1, 2, 3], 1);
    assert_eq!(generator.action(), evaluate(&[1], 0, false));
    assert_eq!(generator.step(OK).action, evaluate(&[2], 1, false));
    assert_eq!(generator.step(OK).action, evaluate(&[3], 2, false));
    assert_eq!(generator.step(OK).action, sample_from(&[1, 2, 3]));
}

#[test]
fn sample_window_holds_the_last_tokens_without_fill() {
    let prompt: Vec<Token> = vec![11, 12];
    let mut generator = Generator::new(config(512, 0, 8, 4), prompt, 4);
    assert_eq!(generator.step(OK).action, sample_from(&[11, 12]));
    generator.step(Event::Sampled { token: 13 });
    assert_eq!(generator.step(OK).action, sample_from(&[11, 12, 13]));
    generator.step(Event::Sampled { token: 14 });
    assert_eq!(generator.step(OK).action, sample_from(&[11, 12, 13, 14]));
    generator.step(Event::Sampled { token: 15 });
    assert_eq!(generator.step(OK).action, sample_from(&[12, 13, 14, 15]));
}

#[test]
fn small_window_truncates_once_before_the_generation_step() {
    let mut generator = Generator::new(config(4, 0, 8, 64), vec![1, 2, 3, 4, 5], 1);
    let mut truncations = 0;
    let mut samples = 0;
    let mut action = generator.action();
    loop {
        let event = match action {
            Action::Evaluate { truncated, .. } => {
                assert_eq!(samples, 0);
                if truncated {
                    truncations += 1;
                }
                OK
            }
            Action::Sample { .. } => {
                assert_eq!(truncations, 1);
                samples += 1;
                Event::Sampled { token: 9 }
            }
            Action::Stop => break,
            Action::Abort { status } => panic!("evaluation failed: {}", status),
        };
        action = generator.step(event).action;
    }
    assert_eq!(truncations, 1);
    assert_eq!(samples, 1);
    assert_eq!(generator.into_output(), vec![9]);
}

#[test]
fn small_window_with_small_batches_truncates_once_and_fits() {
    let mut generator = Generator::new(config(4, 0, 2, 64), vec![1, 2, 3, 4, 5], 1);
    let actions = run(&mut generator);
    assert_eq!(
        actions,
        vec![
            evaluate(&[1, 2], 0, false),
            evaluate(&[3, 4], 2, false),
            // n_left = 4: two history tokens go in front of the batch
            evaluate(&[2, 3, 5], 0, true),
            sample_from(&[2, 3, 4, 5]),
            Action::Stop,
        ]
    );
}

#[test]
fn window_overflow_rewinds_during_generation() {
    let prompt: Vec<Token> = (1..=8).collect();
    let mut generator = Generator::new(config(8, 0, 2, 4), prompt, 3);
    let actions = run(&mut generator);
    assert_eq!(
        actions,
        vec![
            evaluate(&[1, 2], 0, false),
            evaluate(&[3, 4], 2, false),
            evaluate(&[5, 6], 4, false),
            evaluate(&[7, 8], 6, false),
            sample_from(&[5, 6, 7, 8]),
            evaluate(&[2, 3, 4, 5, 100], 0, true),
            sample_from(&[6, 7, 8, 100]),
            evaluate(&[101], 5, false),
            sample_from(&[7, 8, 100, 101]),
            Action::Stop,
        ]
    );
    assert_eq!(generator.into_output(), vec![100, 101, 102]);
}

#[test]
fn window_overflow_keeps_n_keep_tokens() {
    let prompt: Vec<Token> = (1..=8).collect();
    let mut generator = Generator::new(config(8, 2, 2, 3), prompt, 2);
    let actions = run(&mut generator);
    assert_eq!(
        actions,
        vec![
            evaluate(&[1, 2], 0, false),
            evaluate(&[3, 4], 2, false),
            evaluate(&[5, 6], 4, false),
            evaluate(&[7, 8], 6, false),
            sample_from(&[6, 7, 8]),
            // n_left = 8 - 2 = 6: three history tokens go in front, on top of the two kept
            evaluate(&[2, 3, 4, 100], 2, true),
            sample_from(&[7, 8, 100]),
            Action::Stop,
        ]
    );
    assert_eq!(generator.window().n_past(), 6);
}

#[test]
fn roomy_window_never_receives_more_than_it_holds() {
    let prompt: Vec<Token> = (0..100).collect();
    let mut generator = Generator::new(config(32, 4, 8, 16), prompt, 200);
    let actions = run(&mut generator);
    let mut evaluations = 0;
    for action in &actions {
        if let Action::Evaluate { tokens, n_past, .. } = action {
            assert!(!tokens.is_empty());
            assert!(n_past + tokens.len() <= 32);
            evaluations += 1;
        }
    }
    assert!(evaluations > 200);
    assert_eq!(generator.output().len(), 200);
}

#[test]
fn history_follows_prompt_and_output() {
    let prompt: Vec<Token> = (1..=6).collect();
    let mut generator = Generator::new(config(4, 0, 2, 64), prompt, 2);
    run(&mut generator);
    assert_eq!(generator.window().history().to_vec(), vec![5, 6, 100, 101]);
}
