//! Decisions of the training loop. The loop itself (environment steps,
//! network passes, optimizer) runs outside; after each environment step it
//! reports whether the environment ended or cut the episode, and is told
//! whether to keep the next state and whether the episode is over.

use crate::replay::{pushed, ReplayMemory, Transition};
use vstd::prelude::*;

verus! {

/// An episode has ended: its 1-based number, its duration (the index of its
/// last step) and the steps taken since training started.
#[derive(Debug, Clone, Copy, PartialEq, Eq)]
pub struct EpisodeReport {
    pub episode: usize,
    pub episode_duration: usize,
    pub steps_done: usize,
}

/// What the loop does after an environment step.
#[derive(Debug, Clone, Copy, PartialEq, Eq)]
pub struct StepOutcome {
    /// Store the observed next state in the transition (false when the
    /// environment ended the episode: the transition is terminal).
    pub keep_next_state: bool,
    /// Present when the episode is over.
    pub finished_episode: Option<EpisodeReport>,
}

/// Whether the step with index `t` ends its episode.
pub open spec fn ends_episode(t: nat, max_steps: nat, env_done: bool, truncated: bool) -> bool {
    env_done || truncated || t == max_steps
}

/// Steps taken by episodes of the given durations (an episode of duration
/// `d` takes `d + 1` steps).
pub open spec fn steps_of(durations: Seq<nat>) -> nat
    decreases durations.len(),
{
    if durations.len() == 0 {
        0
    } else {
        steps_of(durations.drop_last()) + durations.last() + 1
    }
}

/// Progress through `total_episodes` episodes of at most `max_steps + 1`
/// steps each.
pub struct TrainingProgress {
    total_episodes: usize,
    max_steps: usize,
    episode: usize,
    t: usize,
    steps_done: usize,
    durations: Ghost<Seq<nat>>,
}

impl TrainingProgress {
    pub closed spec fn total(&self) -> nat {
        self.total_episodes as nat
    }

    pub closed spec fn max_steps_spec(&self) -> nat {
        self.max_steps as nat
    }

    /// 0-based index of the running episode; `total()` once all are done.
    pub closed spec fn episode_index(&self) -> nat {
        self.episode as nat
    }

    /// Index of the next step within the running episode.
    pub closed spec fn step_index(&self) -> nat {
        self.t as nat
    }

    pub closed spec fn steps(&self) -> nat {
        self.steps_done as nat
    }

    /// Durations of the finished episodes, in order.
    pub closed spec fn finished_durations(&self) -> Seq<nat> {
        self.durations@
    }

    /// Every finished episode was reported; the steps taken are those of the
    /// finished episodes and of the running one; no episode outlasts the
    /// step limit.
    pub closed spec fn well_formed(&self) -> bool {
        &&& self.episode <= self.total_episodes
        &&& self.t <= self.max_steps
        &&& self.episode == self.total_episodes ==> self.t == 0
        &&& self.durations@.len() == self.episode
        &&& self.steps_done == steps_of(self.durations@) + self.t
        &&& forall|k: int| 0 <= k < self.durations@.len() ==> #[trigger] self.durations@[k] <= self.max_steps
    }

    pub fn new(total_episodes: usize, max_steps: usize) -> (progress: TrainingProgress)
        ensures
            progress.well_formed(),
            progress.total() == total_episodes,
            progress.max_steps_spec() == max_steps,
            progress.episode_index() == 0,
            progress.step_index() == 0,
            progress.steps() == 0,
            progress.finished_durations() == Seq::<nat>::empty(),
    {
        TrainingProgress {
            total_episodes,
            max_steps,
            episode: 0,
            t: 0,
            steps_done: 0,
            durations: Ghost(Seq::empty()),
        }
    }

    /// All episodes are done.
    pub fn is_finished(&self) -> (finished: bool)
        ensures
            finished == (self.episode_index() == self.total()),
    {
        self.episode == self.total_episodes
    }

    /// Steps taken since training started (drives the exploration rate).
    pub fn steps_done(&self) -> (steps: usize)
        ensures
            steps == self.steps(),
    {
        self.steps_done
    }

    /// 0-based index of the running episode.
    pub fn current_episode(&self) -> (episode: usize)
        ensures
            episode == self.episode_index(),
    {
        self.episode
    }

    /// Takes one environment step into account. The episode ends when the
    /// environment ends or cuts it, or when this was step `max_steps` of it;
    /// the next state is kept unless the environment itself ended the
    /// episode.
    pub fn record_step(&mut self, env_done: bool, truncated: bool) -> (outcome: StepOutcome)
        requires
            old(self).well_formed(),
            old(self).episode_index() < old(self).total(),
            old(self).steps() < usize::MAX,
        ensures
            steps_recorded(*old(self), *final(self), env_done, truncated, outcome),
    {
        self.steps_done = self.steps_done + 1;
        let done = env_done || truncated || self.t == self.max_steps;
        if done {
            let report = EpisodeReport {
                episode: self.episode + 1,
                episode_duration: self.t,
                steps_done: self.steps_done,
            };
            proof {
                let old_durations = self.durations@;
                let new_durations = old_durations.push(self.t as nat);
                assert(new_durations.drop_last() =~= old_durations);
                self.durations = Ghost(new_durations);
            }
            self.episode = self.episode + 1;
            self.t = 0;
            StepOutcome { keep_next_state: !env_done, finished_episode: Some(report) }
        } else {
            self.t = self.t + 1;
            StepOutcome { keep_next_state: !env_done, finished_episode: None }
        }
    }

    /// The report sent once all episodes are done: the episode count, no
    /// duration, and the steps taken.
    pub fn final_report(&self) -> (report: EpisodeReport)
        ensures
            report == (EpisodeReport { episode: self.total() as usize, episode_duration: 0, steps_done: self.steps() as usize }),
            self.well_formed() && self.episode_index() == self.total() ==> report.steps_done == steps_of(self.finished_durations()),
    {
        EpisodeReport { episode: self.total_episodes, episode_duration: 0, steps_done: self.steps_done }
    }
}

/// What recording one environment step does to the progress and what it
/// tells the loop: the step count goes up by one, the next state is kept
/// unless the environment ended the episode, and the episode ends (and is
/// reported) exactly when `ends_episode` says so.
pub open spec fn steps_recorded(
    before: TrainingProgress,
    after: TrainingProgress,
    env_done: bool,
    truncated: bool,
    outcome: StepOutcome,
) -> bool {
    &&& after.well_formed()
    &&& after.total() == before.total()
    &&& after.max_steps_spec() == before.max_steps_spec()
    &&& after.steps() == before.steps() + 1
    &&& outcome.keep_next_state == !env_done
    &&& outcome.finished_episode matches Some(r) ==> {
        &&& r.episode_duration <= before.max_steps_spec()
        &&& r.episode == after.finished_durations().len()
        &&& r.episode_duration == after.finished_durations().last()
        &&& r.steps_done == steps_of(after.finished_durations())
        &&& r.steps_done == after.steps()
    }
    &&& if ends_episode(before.step_index(), before.max_steps_spec(), env_done, truncated) {
        &&& outcome.finished_episode == Some(EpisodeReport {
            episode: (before.episode_index() + 1) as usize,
            episode_duration: before.step_index() as usize,
            steps_done: (before.steps() + 1) as usize,
        })
        &&& after.episode_index() == before.episode_index() + 1
        &&& after.step_index() == 0
        &&& after.finished_durations() == before.finished_durations().push(before.step_index())
    } else {
        &&& outcome.finished_episode == None::<EpisodeReport>
        &&& after.episode_index() == before.episode_index()
        &&& after.step_index() == before.step_index() + 1
        &&& after.finished_durations() == before.finished_durations()
    }
}

/// The smaller of `a` and `b`.
pub open spec fn min_nat(a: nat, b: nat) -> nat {
    if a <= b { a } else { b }
}

/// One step of training: records it in `progress` and stores its transition
/// in `memory` (terminal, without next state, when the environment ended the
/// episode). Returns what the loop does next and the transition the memory
/// evicted, whose tensors the caller releases.
///
/// Run from a fresh progress and a fresh memory of positive capacity, one
/// call per step keeps the memory at `min(steps taken, capacity)`
/// transitions, so each episode report's `steps_done` fixes the memory size
/// sent with it.
pub fn take_step<T: Copy>(
    progress: &mut TrainingProgress,
    memory: &mut ReplayMemory<T>,
    state: T,
    action: T,
    next_state: T,
    reward: T,
    env_done: bool,
    truncated: bool,
) -> (result: (StepOutcome, Option<Transition<T>>))
    requires
        old(progress).well_formed(),
        old(progress).episode_index() < old(progress).total(),
        old(progress).steps() < usize::MAX,
        old(memory).well_formed(),
    ensures
        steps_recorded(*old(progress), *final(progress), env_done, truncated, result.0),
        final(memory).well_formed(),
        final(memory).capacity() == old(memory).capacity(),
        final(memory)@ == pushed(old(memory).capacity(), old(memory)@, Transition {
            state,
            action,
            next_state: if env_done { None } else { Some(next_state) },
            reward,
        }),
        result.1 == if old(memory)@.len() == old(memory).capacity() && old(memory)@.len() > 0 {
            Some(old(memory)@[0])
        } else {
            None::<Transition<T>>
        },
        old(memory).capacity() > 0 && old(memory)@.len() == min_nat(old(progress).steps(), old(memory).capacity())
            ==> final(memory)@.len() == min_nat(final(progress).steps(), final(memory).capacity()),
{
    let outcome = progress.record_step(env_done, truncated);
    let kept = if outcome.keep_next_state { Some(next_state) } else { None };
    let evicted = memory.push_transition(Transition::new(state, action, kept, reward));
    (outcome, evicted)
}

/// The steps taken since training started are the steps of the finished
/// episodes plus those of the running one, and no finished episode lasted
/// more than `max_steps + 1` steps.
pub proof fn lemma_steps_add_up(progress: &TrainingProgress)
    requires
        progress.well_formed(),
    ensures
        progress.steps() == steps_of(progress.finished_durations()) + progress.step_index(),
        progress.finished_durations().len() == progress.episode_index(),
        forall|k: int| 0 <= k < progress.finished_durations().len() ==>
            #[trigger] progress.finished_durations()[k] <= progress.max_steps_spec(),
        progress.step_index() <= progress.max_steps_spec(),
{
}

} // verus!
