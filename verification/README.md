# dqn_cartpole

A Deep Q-Network trainer for the CartPole environment, with a terminal
dashboard. The library in `src/` is written and proved with Verus; `app/`
is the program around it.

## Library (`src/`, verified)

- `replay` — the bounded replay memory of transitions (`ReplayMemory`),
  random batches drawn without repetition, and the field-by-field layout of
  a batch (`TransitionSOA`).
- `buffer` — the 50 000-entry replay buffer of the stand-alone agent.
- `batch` — which transitions of a batch have a next state, the compact list
  of those states, and the spreading of target values back over the batch.
- `episode` — the decisions of the training loop: when an episode ends and
  what is reported for it.
- `dashboard` — the dashboard state (history, best duration, running
  average) and the integer data behind its charts.
- `state_file` — checking and splitting a binary file of sample states.
- `timing` — accumulated timings of the training phases.
- `rng` — the random draws, taken from the `rand` crate.
- `config`, `mountain_car` — integer hyperparameters.

## Program (`app/`)

The Q-networks and their updates (on the `cant` tensor library), the
exploration rate and action choice (floating point), the CartPole
environment (`gym-rs`), the `ratatui` dashboard and the command line.
