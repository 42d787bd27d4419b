use llama_core::token::Token;
use llama_core::window::ContextWindow;

fn window_with(n_ctx: usize, n_keep: usize, recorded: &[Token], evaluated: usize) -> ContextWindow {
    let mut window = ContextWindow::new(n_ctx, n_keep);
    for token in recorded {
        window.record(*token);
    }
    window.advance(evaluated);
    window
}

#[test]
fn window_starts_with_nothing_evaluated() {
    let window = ContextWindow::new(512, 0);
    assert_eq!(window.n_ctx(), 512);
    assert_eq!(window.n_keep(), 0);
    assert_eq!(window.n_past(), 0);
    assert_eq!(window.history().len(), 0);
    assert_eq!(window.history().capacity(), 512);
}

#[test]
fn batch_that_fits_is_left_alone() {
    let mut window = window_with(8, 0, &[1, 2, 3], 3);
    let mut batch = vec![4, 5];
    assert!(!window.make_room(&mut batch));
    assert_eq!(batch, vec![4, 5]);
    assert_eq!(window.n_past(), 3);
}

#[test]
fn batch_that_fills_the_window_exactly_is_left_alone() {
    let mut window = window_with(8, 0, &[1, 2, 3, 4, 5, 6], 6);
    let mut batch = vec![7, 8];
    assert!(!window.make_room(&mut batch));
    assert_eq!(batch, vec![7, 8]);
    assert_eq!(window.n_past(), 6);
}

#[test]
fn truncation_resets_past_and_reseeds_half() {
    let mut window = window_with(8, 0, &[1, 2, 3, 4, 5, 6, 7, 8], 8);
    let mut batch = vec![9];
    assert!(window.make_room(&mut batch));
    // n_left = 8 - 0, so 4 history tokens go in front
    assert_eq!(batch, vec![1, 2, 3, 4, 9]);
    assert_eq!(window.n_past(), 0);
    assert!(window.n_past() + batch.len() <= window.n_ctx());
    assert_eq!(window.history().to_vec(), vec![1, 2, 3, 4, 5, 6, 7, 8]);
}

#[test]
fn truncation_keeps_n_keep_tokens() {
    let mut window = window_with(8, 2, &[1, 2, 3, 4, 5, 6, 7, 8], 8);
    let mut batch = vec![9];
    assert!(window.make_room(&mut batch));
    // n_left = 8 - 2 = 6, so 3 history tokens go in front
    assert_eq!(batch, vec![1, 2, 3, 9]);
    assert_eq!(window.n_past(), 2);
}

#[test]
fn truncation_halves_with_integer_division() {
    let mut window = window_with(8, 0, &[1, 2, 3, 4, 5, 6, 7], 7);
    let mut batch = vec![8, 9];
    assert!(window.make_room(&mut batch));
    // n_left = 7, 7 / 2 = 3; the history is padded in front with one fill token
    assert_eq!(batch, vec![0, 1, 2, 8, 9]);
    assert_eq!(window.n_past(), 0);
}

#[test]
fn truncation_of_one_token_reseeds_nothing() {
    let mut window = window_with(4, 0, &[1], 1);
    let mut batch = vec![2, 3, 4, 5];
    assert!(window.make_room(&mut batch));
    assert_eq!(batch, vec![2, 3, 4, 5]);
    assert_eq!(window.n_past(), 0);
}

#[test]
fn truncation_with_nothing_to_discard_changes_nothing() {
    let mut window = window_with(4, 0, &[], 0);
    let mut batch = vec![1, 2, 3, 4, 5];
    assert!(window.make_room(&mut batch));
    assert_eq!(batch, vec![1, 2, 3, 4, 5]);
    assert_eq!(window.n_past(), 0);
}

#[test]
fn truncation_below_n_keep_changes_nothing() {
    let mut window = window_with(4, 10, &[1, 2, 3], 3);
    let mut batch = vec![4, 5];
    assert!(window.make_room(&mut batch));
    assert_eq!(batch, vec![4, 5]);
    assert_eq!(window.n_past(), 3);
    assert!(window.n_past() <= window.n_keep());
}

#[test]
fn truncation_reseeds_from_the_padded_history() {
    let mut window = window_with(4, 0, &[7], 4);
    let mut batch = vec![9];
    assert!(window.make_room(&mut batch));
    assert_eq!(batch, vec![0, 0, 9]);
    assert_eq!(window.n_past(), 0);
}

#[test]
fn reseed_never_takes_more_than_the_window() {
    let mut window = window_with(4, 0, &[1, 2, 3, 4], 100);
    let mut batch = vec![9];
    assert!(window.make_room(&mut batch));
    assert_eq!(batch, vec![1, 2, 3, 4, 9]);
    assert_eq!(window.n_past(), 0);
}

#[test]
fn advance_counts_evaluated_tokens() {
    let mut window = ContextWindow::new(16, 0);
    window.advance(5);
    window.advance(3);
    assert_eq!(window.n_past(), 8);
}

#[test]
fn record_feeds_the_history() {
    let mut window = ContextWindow::new(2, 0);
    window.record(1);
    window.record(2);
    window.record(3);
    assert_eq!(window.history().to_vec(), vec![2, 3]);
    assert_eq!(window.n_past(), 0);
}
