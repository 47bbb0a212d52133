use dqn_cartpole::config;
use dqn_cartpole::mountain_car;

#[test]
fn cartpole_hyperparameters() {
    assert_eq!(config::BATCH_SIZE, 128);
    assert_eq!(config::TOTAL_EPISODES, 600);
    assert_eq!(config::MEMORY_CAPACITY, 10_000);
    assert_eq!(config::HIDDEN_LAYER_SIZE, 128);
    assert_eq!(config::OBSERVATION_SIZE, 4);
    assert_eq!(config::MAX_STEPS_PER_EPISODE, 500);
}

#[test]
fn mountain_car_hyperparameters() {
    assert_eq!(mountain_car::OBSERVATION_SIZE, 2);
    assert_eq!(mountain_car::NUM_ACTIONS, 3);
    assert_eq!(mountain_car::TOTAL_EPISODES, 1000);
    assert_eq!(mountain_car::MAX_STEPS_PER_EPISODE, 200);
}
