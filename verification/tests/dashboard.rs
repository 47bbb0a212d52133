use std::collections::HashMap;

use dqn_cartpole::dashboard::{
    cumulative_durations, max_duration_or, moving_average_windows, DashboardState, TrainingUpdate,
};

fn update(episode: usize, duration: usize, epsilon: f32) -> TrainingUpdate<f32> {
    let mut timings = HashMap::new();
    timings.insert(1u64, episode as u128);
    TrainingUpdate {
        episode,
        episode_duration: duration,
        steps_done: episode * 10,
        epsilon,
        memory_size: episode * 3,
        training_complete: false,
        timings,
    }
}

#[test]
fn new_dashboard_is_empty() {
    let state = DashboardState::new(0.9f32);
    assert!(state.episode_durations.is_empty());
    assert!(state.epsilon_history.is_empty());
    assert_eq!(state.current_epsilon, 0.9);
    assert_eq!(state.best_duration, 0);
    assert_eq!((state.recent_duration_total, state.recent_duration_count), (0, 0));
    assert!(!state.training_complete);
}

#[test]
fn update_records_episode_and_statistics() {
    let mut state = DashboardState::new(0.9f32);
    state.update(update(1, 12, 0.8));
    state.update(update(2, 30, 0.7));
    state.update(update(3, 18, 0.6));
    assert_eq!(state.episode_durations, vec![(1, 12), (2, 30), (3, 18)]);
    assert_eq!(state.epsilon_history, vec![(1, 0.8), (2, 0.7), (3, 0.6)]);
    assert_eq!(state.best_duration, 30);
    assert_eq!((state.recent_duration_total, state.recent_duration_count), (60, 3));
    assert_eq!(state.current_episode, 3);
    assert_eq!(state.current_epsilon, 0.6);
    assert_eq!(state.total_steps, 30);
    assert_eq!(state.memory_size, 9);
    assert_eq!(state.timing.get(&1), Some(&3));
}

#[test]
fn zero_duration_updates_only_current_values() {
    let mut state = DashboardState::new(0.9f32);
    state.update(update(1, 5, 0.8));
    let mut last = update(600, 0, 0.1);
    last.training_complete = true;
    state.update(last);
    assert_eq!(state.episode_durations, vec![(1, 5)]);
    assert_eq!(state.best_duration, 5);
    assert_eq!((state.recent_duration_total, state.recent_duration_count), (5, 1));
    assert!(state.training_complete);
    assert_eq!(state.current_episode, 600);
}

#[test]
fn running_average_covers_last_hundred_episodes() {
    let mut state = DashboardState::new(1.0f32);
    for e in 1..=150usize {
        state.update(update(e, e, 0.5));
    }
    // Episodes 51..=150.
    assert_eq!(state.recent_duration_count, 100);
    assert_eq!(state.recent_duration_total, (51..=150u128).sum::<u128>());
    assert_eq!(state.best_duration, 150);
}

#[test]
fn moving_average_windows_reach_back_twenty_episodes() {
    let durations: Vec<(usize, usize)> = (1..=25usize).map(|e| (e, e * 2)).collect();
    let windows = moving_average_windows(&durations);
    assert_eq!(windows.len(), 25);
    assert_eq!(windows[0], (1, 2, 1));
    assert_eq!(windows[2], (3, 12, 3));
    // Index 24 covers indices 4..=24: durations 10, 12, ..., 50.
    assert_eq!(windows[24], (25, (5..=25u128).map(|e| e * 2).sum(), 21));
}

#[test]
fn cumulative_durations_are_prefix_sums() {
    let durations = vec![(1usize, 10usize), (2, 20), (4, 5)];
    assert_eq!(cumulative_durations(&durations), vec![10, 30, 35]);
}

#[test]
fn chart_top_is_at_least_the_floor() {
    let durations = vec![(1usize, 10usize), (2, 120), (3, 40)];
    assert_eq!(max_duration_or(&durations, 100), 120);
    assert_eq!(max_duration_or(&vec![(1usize, 10usize)], 100), 100);
    assert_eq!(max_duration_or(&Vec::new(), 100), 100);
}

#[derive(Clone, Copy, Debug, PartialEq)]
struct Rate(f32);

impl dqn_cartpole::dashboard::StartingRate for Rate {
    fn starting_rate() -> Rate {
        Rate(0.9)
    }
}

#[test]
fn default_dashboard_is_new_with_starting_rate() {
    let fresh: DashboardState<Rate> = DashboardState::default();
    let made = DashboardState::new(Rate(0.9));
    assert_eq!(fresh.current_epsilon, made.current_epsilon);
    assert_eq!(fresh.episode_durations, made.episode_durations);
    assert_eq!(fresh.epsilon_history, made.epsilon_history);
    assert_eq!(fresh.current_episode, 0);
    assert_eq!(fresh.total_steps, 0);
    assert_eq!(fresh.memory_size, 0);
    assert_eq!(fresh.best_duration, 0);
    assert_eq!((fresh.recent_duration_total, fresh.recent_duration_count), (0, 0));
    assert!(!fresh.training_complete);
    assert!(fresh.timing.is_empty());
}
