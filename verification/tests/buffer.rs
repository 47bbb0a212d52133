use dqn_cartpole::buffer::{ReplayBuffer, REPLAY_BUFFER_CAPACITY};

#[test]
fn buffer_starts_empty() {
    let buffer: ReplayBuffer<u32> = ReplayBuffer::new();
    assert_eq!(buffer.len(), 0);
}

#[test]
fn buffer_keeps_last_fifty_thousand() {
    let mut buffer = ReplayBuffer::new();
    for i in 0..(REPLAY_BUFFER_CAPACITY as u32 + 5) {
        buffer.add_transition(i);
    }
    assert_eq!(buffer.len(), REPLAY_BUFFER_CAPACITY);
    let mut all = buffer.sample(REPLAY_BUFFER_CAPACITY);
    all.sort();
    assert_eq!(all[0], 5);
    assert_eq!(all[REPLAY_BUFFER_CAPACITY - 1], REPLAY_BUFFER_CAPACITY as u32 + 4);
    all.dedup();
    assert_eq!(all.len(), REPLAY_BUFFER_CAPACITY);
}

#[test]
fn buffer_sample_is_capped_by_contents() {
    let mut buffer = ReplayBuffer::new();
    for i in 0..3u32 {
        buffer.add_transition(i * 10);
    }
    let mut picks = buffer.sample(32);
    picks.sort();
    assert_eq!(picks, vec![0, 10, 20]);
    assert_eq!(buffer.len(), 3);
}

#[test]
fn buffer_sample_draws_distinct_items() {
    let mut buffer = ReplayBuffer::new();
    for i in 0..100u32 {
        buffer.add_transition(i);
    }
    let mut picks = buffer.sample(32);
    assert_eq!(picks.len(), 32);
    picks.sort();
    picks.dedup();
    assert_eq!(picks.len(), 32);
    assert!(picks.iter().all(|p| *p < 100));
}
