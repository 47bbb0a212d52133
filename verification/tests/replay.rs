use dqn_cartpole::replay::{ReplayMemory, Transition, TransitionSOA};

fn create_test_tensor(value: f32) -> f32 {
    value
}

fn create_test_transition(value: f32) -> Transition<f32> {
    Transition::new(
        create_test_tensor(value),
        create_test_tensor(value),
        Some(create_test_tensor(value + 1.0)),
        create_test_tensor(1.0),
    )
}

#[test]
fn test_replay_memory_new() {
    let memory: ReplayMemory<f32> = ReplayMemory::new(100);
    assert_eq!(memory.length(), 0);
    assert_eq!(memory.max_capacity(), 100);
}

#[test]
fn test_replay_memory_push_and_length() {
    let mut memory = ReplayMemory::new(100);

    for i in 0..10 {
        memory.push_transition(create_test_transition(i as f32));
    }

    assert_eq!(memory.length(), 10);
}

#[test]
fn test_replay_memory_capacity_overflow() {
    let mut memory = ReplayMemory::new(5);

    // Push 10 transitions into a buffer of capacity 5
    for i in 0..10 {
        memory.push_transition(create_test_transition(i as f32));
    }

    // Should still be at capacity
    assert_eq!(memory.length(), 5);
}

#[test]
fn test_replay_memory_sample_size() {
    let mut memory = ReplayMemory::new(100);

    for i in 0..50 {
        memory.push_transition(create_test_transition(i as f32));
    }

    let sample = memory.sample(10);
    assert_eq!(sample.len(), 10);
}

#[test]
fn test_transition_soa_conversion() {
    let transitions = vec![
        create_test_transition(1.0),
        create_test_transition(2.0),
        create_test_transition(3.0),
    ];

    let soa = TransitionSOA::new(transitions);

    assert_eq!(soa.state.len(), 3);
    assert_eq!(soa.action.len(), 3);
    assert_eq!(soa.next_state.len(), 3);
    assert_eq!(soa.reward.len(), 3);
}

#[test]
fn test_transition_with_terminal_state() {
    let terminal_transition = Transition::new(
        create_test_tensor(1.0),
        create_test_tensor(0.0),
        None, // Terminal state
        create_test_tensor(10.0),
    );

    assert!(terminal_transition.next_state.is_none());

    let soa = TransitionSOA::new(vec![terminal_transition]);
    assert!(soa.next_state[0].is_none());
}

// The memory keeps the latest `capacity` transitions, oldest first, and
// hands back each evicted one.
#[test]
fn memory_keeps_latest_and_returns_evicted() {
    let mut memory = ReplayMemory::new(3);
    let mut evicted = Vec::new();
    for i in 0..7u32 {
        if let Some(t) = memory.push_transition(Transition::new(i, i, None, i)) {
            evicted.push(t.state);
        }
    }
    assert_eq!(evicted, vec![0, 1, 2, 3]);
    let mut states: Vec<u32> = memory.sample(3).iter().map(|t| t.state).collect();
    states.sort();
    assert_eq!(states, vec![4, 5, 6]);
}

// A memory made with capacity zero never evicts.
#[test]
fn zero_capacity_memory_grows() {
    let mut memory = ReplayMemory::new(0);
    for i in 0..4u32 {
        assert!(memory.push_transition(Transition::new(i, i, None, i)).is_none());
    }
    assert_eq!(memory.length(), 4);
}

// Sampling the whole memory draws every transition exactly once.
#[test]
fn sample_draws_distinct_positions() {
    let mut memory = ReplayMemory::new(100);
    for i in 0..40u32 {
        memory.push_transition(Transition::new(i, 0, Some(i + 1), 0));
    }
    let mut states: Vec<u32> = memory.sample(40).iter().map(|t| t.state).collect();
    states.sort();
    assert_eq!(states, (0..40u32).collect::<Vec<_>>());
    for t in memory.sample(15) {
        assert_eq!(t.next_state, Some(t.state + 1));
    }
}

#[test]
fn soa_keeps_fields_in_order() {
    let soa = TransitionSOA::new(vec![
        Transition::new(1u8, 2, Some(3), 4),
        Transition::new(5u8, 6, None, 8),
    ]);
    assert_eq!(soa.state, vec![1, 5]);
    assert_eq!(soa.action, vec![2, 6]);
    assert_eq!(soa.next_state, vec![Some(3), None]);
    assert_eq!(soa.reward, vec![4, 8]);
}

#[test]
fn gather_takes_transitions_at_given_positions() {
    let mut memory = ReplayMemory::new(10);
    for i in 0..6u32 {
        memory.push_transition(Transition::new(i, i, None, i));
    }
    let picked: Vec<u32> = memory.gather(&vec![5, 0, 3, 3]).iter().map(|t| t.state).collect();
    assert_eq!(picked, vec![5, 0, 3, 3]);
}
