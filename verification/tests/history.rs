use llama_core::history::HistoryRing;
use llama_core::token::{Token, FILL_TOKEN};

#[test]
fn ring_starts_empty() {
    let ring = HistoryRing::new(3);
    assert_eq!(ring.len(), 0);
    assert_eq!(ring.capacity(), 3);
    assert_eq!(ring.to_vec(), Vec::<Token>::new());
    assert_eq!(ring.padded_prefix(3), vec![FILL_TOKEN; 3]);
}

#[test]
fn ring_keeps_arrival_order_below_capacity() {
    let mut ring = HistoryRing::new(3);
    ring.push(5);
    ring.push(6);
    assert_eq!(ring.len(), 2);
    assert_eq!(ring.to_vec(), vec![5, 6]);
    assert_eq!(ring.get(0), 5);
    assert_eq!(ring.get(1), 6);
    assert_eq!(ring.padded_prefix(3), vec![0, 5, 6]);
    assert_eq!(ring.padded_prefix(1), vec![0]);
}

#[test]
fn ring_drops_oldest_when_full() {
    let mut ring = HistoryRing::new(3);
    for token in 1..=5 {
        ring.push(token);
    }
    assert_eq!(ring.len(), 3);
    assert_eq!(ring.capacity(), 3);
    assert_eq!(ring.to_vec(), vec![3, 4, 5]);
    assert_eq!(ring.get(0), 3);
    assert_eq!(ring.get(2), 5);
    assert_eq!(ring.padded_prefix(2), vec![3, 4]);
}

#[test]
fn ring_holds_the_latest_tokens_after_any_number_of_pushes() {
    let capacity = 4;
    let arrivals: Vec<Token> = (10..30).collect();
    for pushes in 0..=arrivals.len() {
        let mut ring = HistoryRing::new(capacity);
        for token in &arrivals[..pushes] {
            ring.push(*token);
        }
        let held = pushes.min(capacity);
        assert!(ring.len() <= ring.capacity());
        assert_eq!(ring.len(), held);
        assert_eq!(ring.to_vec(), arrivals[pushes - held..pushes].to_vec());
    }
}

#[test]
fn ring_wraps_around_many_times() {
    let mut ring = HistoryRing::new(3);
    for token in 0..100 {
        ring.push(token);
    }
    assert_eq!(ring.to_vec(), vec![97, 98, 99]);
    assert_eq!(ring.padded_prefix(3), vec![97, 98, 99]);
}

#[test]
fn ring_of_capacity_zero_stays_empty() {
    let mut ring = HistoryRing::new(0);
    ring.push(1);
    ring.push(2);
    assert_eq!(ring.len(), 0);
    assert_eq!(ring.capacity(), 0);
    assert_eq!(ring.to_vec(), Vec::<Token>::new());
    assert_eq!(ring.padded_prefix(5), Vec::<Token>::new());
    assert_eq!(ring.tail(5), Vec::<Token>::new());
}

#[test]
fn ring_of_capacity_one_holds_the_last_token() {
    let mut ring = HistoryRing::new(1);
    ring.push(7);
    assert_eq!(ring.to_vec(), vec![7]);
    ring.push(8);
    assert_eq!(ring.to_vec(), vec![8]);
}

#[test]
fn ring_tail_returns_the_most_recent_tokens() {
    let mut ring = HistoryRing::new(3);
    for token in 1..=5 {
        ring.push(token);
    }
    assert_eq!(ring.tail(0), Vec::<Token>::new());
    assert_eq!(ring.tail(1), vec![5]);
    assert_eq!(ring.tail(2), vec![4, 5]);
    assert_eq!(ring.tail(3), vec![3, 4, 5]);
    assert_eq!(ring.tail(10), vec![3, 4, 5]);
}

#[test]
fn ring_tail_leaves_the_fill_out() {
    let mut ring = HistoryRing::new(8);
    ring.push(4);
    ring.push(0);
    assert_eq!(ring.tail(6), vec![4, 0]);
    assert_eq!(ring.padded_prefix(8), vec![0, 0, 0, 0, 0, 0, 4, 0]);
}

#[test]
fn ring_padded_prefix_stops_at_the_capacity() {
    let mut ring = HistoryRing::new(3);
    ring.push(9);
    assert_eq!(ring.padded_prefix(100), vec![0, 0, 9]);
    assert_eq!(ring.padded_prefix(0), Vec::<Token>::new());
}
