//! State of the training dashboard: the history of finished episodes and the
//! statistics shown beside it. `E` is the type of the exploration rate,
//! which this module only stores and passes on.

use std::collections::HashMap;
use vstd::prelude::*;

verus! {

/// Number of most recent episodes the running average is taken over.
pub const RECENT_WINDOW: usize = 100;

/// One message from the training loop to the dashboard.
pub struct TrainingUpdate<E> {
    pub episode: usize,
    pub episode_duration: usize,
    pub steps_done: usize,
    pub epsilon: E,
    pub memory_size: usize,
    pub training_complete: bool,
    pub timings: HashMap<u64, u128>,
}

/// Sum of the durations (second components) of `s`.
pub open spec fn sum_durations(s: Seq<(usize, usize)>) -> nat
    decreases s.len(),
{
    if s.len() == 0 {
        0
    } else {
        sum_durations(s.drop_last()) + s.last().1 as nat
    }
}

/// Largest duration of `s`, or `floor` if that is larger.
pub open spec fn max_duration(s: Seq<(usize, usize)>, floor: nat) -> nat
    decreases s.len(),
{
    if s.len() == 0 {
        floor
    } else {
        let rest = max_duration(s.drop_last(), floor);
        if s.last().1 > rest { s.last().1 as nat } else { rest }
    }
}

/// The last `RECENT_WINDOW` entries of `s` (all of them if there are fewer).
pub open spec fn recent(s: Seq<(usize, usize)>) -> Seq<(usize, usize)> {
    if s.len() <= RECENT_WINDOW {
        s
    } else {
        s.subrange(s.len() - RECENT_WINDOW, s.len() as int)
    }
}

/// How many of `n` recorded durations the running average is taken over:
/// all of them up to `RECENT_WINDOW`, then the last `RECENT_WINDOW`.
pub open spec fn recent_count(n: nat) -> nat {
    if n <= RECENT_WINDOW { n } else { RECENT_WINDOW as nat }
}

/// Everything the dashboard shows about training so far.
pub struct DashboardState<E> {
    /// `(episode, duration)` of each finished episode with a positive duration.
    pub episode_durations: Vec<(usize, usize)>,
    /// `(episode, exploration rate)` for the same episodes.
    pub epsilon_history: Vec<(usize, E)>,
    pub current_episode: usize,
    pub current_epsilon: E,
    pub total_steps: usize,
    pub memory_size: usize,
    pub best_duration: usize,
    /// Sum and number of the durations the running average is taken over;
    /// the average itself is their quotient (zero while there are none).
    pub recent_duration_total: u128,
    pub recent_duration_count: usize,
    pub training_complete: bool,
    pub timing: HashMap<u64, u128>,
}

impl<E: Copy> DashboardState<E> {
    /// The statistics agree with the history: the best duration is the
    /// largest one recorded (zero before any), the running average is over
    /// the last `RECENT_WINDOW` recorded durations, both histories list the
    /// same episodes, and only positive durations are recorded.
    pub open spec fn consistent(&self) -> bool {
        &&& forall|i: int| 0 <= i < self.episode_durations@.len() ==> (#[trigger] self.episode_durations@[i]).1 > 0
        &&& self.best_duration == max_duration(self.episode_durations@, 0)
        &&& self.recent_duration_count == recent_count(self.episode_durations@.len())
        &&& self.recent_duration_total == sum_durations(self.episode_durations@.subrange(
            self.episode_durations@.len() - self.recent_duration_count,
            self.episode_durations@.len() as int,
        ))
        &&& self.epsilon_history@.len() == self.episode_durations@.len()
        &&& forall|i: int| 0 <= i < self.episode_durations@.len() ==>
            (#[trigger] self.epsilon_history@[i]).0 == self.episode_durations@[i].0
    }

    /// An empty dashboard, showing `initial_epsilon` as exploration rate.
    pub fn new(initial_epsilon: E) -> (state: DashboardState<E>)
        ensures
            state.episode_durations@ == Seq::<(usize, usize)>::empty(),
            state.epsilon_history@ == Seq::<(usize, E)>::empty(),
            state.current_episode == 0,
            state.current_epsilon == initial_epsilon,
            state.total_steps == 0,
            state.memory_size == 0,
            state.best_duration == 0,
            state.recent_duration_total == 0,
            state.recent_duration_count == 0,
            !state.training_complete,
            state.timing@ == Map::<u64, u128>::empty(),
            state.consistent(),
    {
        DashboardState {
            episode_durations: Vec::new(),
            epsilon_history: Vec::new(),
            current_episode: 0,
            current_epsilon: initial_epsilon,
            total_steps: 0,
            memory_size: 0,
            best_duration: 0,
            recent_duration_total: 0,
            recent_duration_count: 0,
            training_complete: false,
            timing: HashMap::new(),
        }
    }

    /// Takes in one message of the training loop. The current values are
    /// replaced; an episode with a positive duration is also appended to the
    /// history, and the best duration and running average follow.
    pub fn update(&mut self, update: TrainingUpdate<E>)
        ensures
            old(self).consistent() ==> final(self).consistent(),
            final(self).best_duration >= old(self).best_duration,
            update.episode_duration > 0 ==> final(self).recent_duration_total == sum_durations(recent(final(self).episode_durations@)),
            update.episode_duration > 0 ==> final(self).recent_duration_count == recent(final(self).episode_durations@).len(),
            update.episode_duration > 0 ==> final(self).recent_duration_count == (if final(self).episode_durations@.len() <= RECENT_WINDOW {
                final(self).episode_durations@.len()
            } else {
                RECENT_WINDOW as nat
            }),
            update.episode_duration > 0 ==> final(self).recent_duration_total == sum_durations(final(self).episode_durations@.subrange(
                final(self).episode_durations@.len() - final(self).recent_duration_count,
                final(self).episode_durations@.len() as int,
            )),
            final(self).episode_durations@.len() >= old(self).episode_durations@.len(),
            final(self).episode_durations@.take(old(self).episode_durations@.len() as int) == old(self).episode_durations@,
            final(self).current_episode == update.episode,
            final(self).current_epsilon == update.epsilon,
            final(self).total_steps == update.steps_done,
            final(self).memory_size == update.memory_size,
            final(self).training_complete == update.training_complete,
            final(self).timing == update.timings,
            if update.episode_duration > 0 {
                &&& final(self).episode_durations@ == old(self).episode_durations@.push((update.episode, update.episode_duration))
                &&& final(self).epsilon_history@ == old(self).epsilon_history@.push((update.episode, update.epsilon))
                &&& final(self).best_duration == if update.episode_duration > old(self).best_duration {
                    update.episode_duration
                } else {
                    old(self).best_duration
                }
            } else {
                &&& final(self).episode_durations@ == old(self).episode_durations@
                &&& final(self).epsilon_history@ == old(self).epsilon_history@
                &&& final(self).best_duration == old(self).best_duration
                &&& final(self).recent_duration_total == old(self).recent_duration_total
                &&& final(self).recent_duration_count == old(self).recent_duration_count
            },
    {
        self.current_episode = update.episode;
        self.current_epsilon = update.epsilon;
        self.total_steps = update.steps_done;
        self.memory_size = update.memory_size;
        self.training_complete = update.training_complete;
        self.timing = update.timings;

        if update.episode_duration > 0 {
            let ghost old_durations = self.episode_durations@;
            self.episode_durations.push((update.episode, update.episode_duration));
            self.epsilon_history.push((update.episode, update.epsilon));
            proof {
                assert(self.episode_durations@.drop_last() =~= old_durations);
            }
            if update.episode_duration > self.best_duration {
                self.best_duration = update.episode_duration;
            }
            let (total, count) = recent_stats(&self.episode_durations);
            self.recent_duration_total = total;
            self.recent_duration_count = count;
        }
    }
}

/// An exploration-rate type with a starting value: the rate a fresh
/// dashboard shows before the first training update.
pub trait StartingRate: Sized {
    fn starting_rate() -> Self;
}

impl<E: Copy + StartingRate> Default for DashboardState<E> {
    /// The dashboard of `new`, showing `E::starting_rate()` as exploration
    /// rate.
    fn default() -> (state: Self)
        ensures
            state.episode_durations@ == Seq::<(usize, usize)>::empty(),
            state.epsilon_history@ == Seq::<(usize, E)>::empty(),
            state.current_episode == 0,
            state.total_steps == 0,
            state.memory_size == 0,
            state.best_duration == 0,
            state.recent_duration_total == 0,
            state.recent_duration_count == 0,
            !state.training_complete,
            state.timing@ == Map::<u64, u128>::empty(),
            state.consistent(),
    {
        DashboardState::new(E::starting_rate())
    }
}

/// The best duration shown is the largest recorded one: no recorded
/// duration exceeds it, and unless nothing was recorded (or only durations
/// below the floor), some recorded duration equals it.
pub proof fn lemma_max_duration_is_max(s: Seq<(usize, usize)>, floor: nat)
    ensures
        max_duration(s, floor) >= floor,
        forall|i: int| 0 <= i < s.len() ==> #[trigger] s[i].1 <= max_duration(s, floor),
        max_duration(s, floor) == floor || exists|i: int| 0 <= i < s.len() && #[trigger] s[i].1 == max_duration(s, floor),
    decreases s.len(),
{
    if s.len() > 0 {
        let rest = s.drop_last();
        lemma_max_duration_is_max(rest, floor);
        assert forall|i: int| 0 <= i < s.len() implies #[trigger] s[i].1 <= max_duration(s, floor) by {
            if i < s.len() - 1 {
                assert(s[i] == rest[i]);
            }
        }
        if max_duration(s, floor) != floor {
            if s.last().1 > max_duration(rest, floor) {
                assert(s[s.len() - 1].1 == max_duration(s, floor));
            } else {
                let j = choose|j: int| 0 <= j < rest.len() && #[trigger] rest[j].1 == max_duration(rest, floor);
                assert(s[j] == rest[j]);
            }
        }
    }
}

/// The running average covers the most recent `min(n, RECENT_WINDOW)` of
/// the `n` recorded durations, oldest first, ending with the latest one.
pub proof fn lemma_recent_is_latest_window(s: Seq<(usize, usize)>)
    ensures
        recent(s).len() == recent_count(s.len()),
        recent(s).len() == if s.len() <= RECENT_WINDOW { s.len() } else { RECENT_WINDOW as nat },
        recent(s) == s.subrange(s.len() - recent(s).len(), s.len() as int),
        forall|k: int| 0 <= k < recent(s).len() ==> #[trigger] recent(s)[k] == s[s.len() - recent(s).len() + k],
{
    if s.len() <= RECENT_WINDOW {
        assert(s.subrange(0, s.len() as int) =~= s);
    }
}

/// Sums split at any point: the durations of `s` add up to those before
/// index `k` plus those from `k` on.
pub proof fn lemma_sum_durations_split(s: Seq<(usize, usize)>, k: int)
    requires
        0 <= k <= s.len(),
    ensures
        sum_durations(s) == sum_durations(s.take(k)) + sum_durations(s.skip(k)),
    decreases s.len() - k,
{
    if k < s.len() {
        lemma_sum_durations_split(s, k + 1);
        lemma_sum_durations_head(s.skip(k));
        assert(s.skip(k).drop_first() =~= s.skip(k + 1));
        assert(s.take(k + 1).drop_last() =~= s.take(k));
        assert(s.take(k + 1).last() == s.skip(k)[0]);
    } else {
        assert(s.take(k) =~= s);
        assert(s.skip(k) =~= Seq::<(usize, usize)>::empty());
    }
}

/// The durations of a non-empty `s` add up to its first one plus those of
/// the rest.
pub proof fn lemma_sum_durations_head(s: Seq<(usize, usize)>)
    requires
        s.len() > 0,
    ensures
        sum_durations(s) == s[0].1 + sum_durations(s.drop_first()),
    decreases s.len(),
{
    if s.len() > 1 {
        lemma_sum_durations_head(s.drop_last());
        assert(s.drop_last().drop_first() =~= s.drop_first().drop_last());
        assert(s.drop_first().last() == s.last());
        assert(s.drop_last()[0] == s[0]);
    } else {
        assert(s.drop_first() =~= Seq::<(usize, usize)>::empty());
        assert(s.drop_last() =~= Seq::<(usize, usize)>::empty());
    }
}

/// Sums are bounded by the number of terms times the largest `usize`.
pub proof fn lemma_sum_bound(s: Seq<(usize, usize)>)
    ensures
        sum_durations(s) <= s.len() * (usize::MAX as nat),
    decreases s.len(),
{
    if s.len() > 0 {
        lemma_sum_bound(s.drop_last());
        assert(sum_durations(s) <= (s.len() - 1) * (usize::MAX as nat) + usize::MAX) by {
            assert(s.last().1 <= usize::MAX);
        }
        assert((s.len() - 1) * (usize::MAX as nat) + usize::MAX == s.len() * (usize::MAX as nat)) by (nonlinear_arith);
    }
}

/// The sum of `durations[start..end]`, computed.
fn sum_range(durations: &Vec<(usize, usize)>, start: usize, end: usize) -> (total: u128)
    requires
        start <= end <= durations@.len(),
        end - start <= RECENT_WINDOW + 1,
    ensures
        total == sum_durations(durations@.subrange(start as int, end as int)),
{
    let mut total: u128 = 0;
    let mut k: usize = start;
    while k < end
        invariant
            start <= k <= end,
            end <= durations@.len(),
            end - start <= RECENT_WINDOW + 1,
            total == sum_durations(durations@.subrange(start as int, k as int)),
        decreases end - k,
    {
        proof {
            let part = durations@.subrange(start as int, k + 1);
            assert(part.drop_last() =~= durations@.subrange(start as int, k as int));
            lemma_sum_bound(durations@.subrange(start as int, k as int));
            assert((k - start) * (usize::MAX as nat) <= (RECENT_WINDOW + 1) * (usize::MAX as nat)) by (nonlinear_arith)
                requires k - start <= RECENT_WINDOW + 1;
            assert(durations@.subrange(start as int, k as int).len() == k - start);
            assert(total <= (RECENT_WINDOW + 1) * (usize::MAX as nat));
            assert(durations@[k as int].1 <= usize::MAX);
        }
        total = total + durations[k].1 as u128;
        k = k + 1;
    }
    total
}

/// Sum and number of the last `RECENT_WINDOW` durations of `durations`.
fn recent_stats(durations: &Vec<(usize, usize)>) -> (stats: (u128, usize))
    ensures
        stats.0 == sum_durations(recent(durations@)),
        stats.1 == recent(durations@).len(),
        stats.1 == (if durations@.len() <= RECENT_WINDOW { durations@.len() } else { RECENT_WINDOW as nat }),
        stats.0 == sum_durations(durations@.subrange(durations@.len() - stats.1, durations@.len() as int)),
{
    let len = durations.len();
    let start = if len > RECENT_WINDOW { len - RECENT_WINDOW } else { 0 };
    let total = sum_range(durations, start, len);
    proof {
        if len <= RECENT_WINDOW {
            assert(durations@.subrange(0, len as int) =~= durations@);
        }
    }
    (total, len - start)
}

/// Number of earlier episodes the duration chart's moving average reaches
/// back over (the window also holds the episode itself).
pub const MOVING_AVERAGE_SPAN: usize = 20;

/// First index of the moving-average window that ends at index `i`.
pub open spec fn window_start(i: int) -> int {
    if i >= MOVING_AVERAGE_SPAN { i - MOVING_AVERAGE_SPAN } else { 0 }
}

/// For each recorded episode: its number, and the sum and number of the
/// durations in the window of up to `MOVING_AVERAGE_SPAN` episodes before it
/// and itself. The moving average plotted is their quotient.
pub fn moving_average_windows(durations: &Vec<(usize, usize)>) -> (windows: Vec<(usize, u128, usize)>)
    ensures
        windows@.len() == durations@.len(),
        forall|i: int| 0 <= i < durations@.len() ==> (#[trigger] windows@[i]).0 == durations@[i].0,
        forall|i: int| 0 <= i < durations@.len() ==>
            (#[trigger] windows@[i]).1 == sum_durations(durations@.subrange(window_start(i), i + 1)),
        forall|i: int| 0 <= i < durations@.len() ==> (#[trigger] windows@[i]).2 == i + 1 - window_start(i),
        forall|i: int| 0 <= i < durations@.len() ==> (#[trigger] windows@[i]).2 == (if i < MOVING_AVERAGE_SPAN {
            i + 1
        } else {
            MOVING_AVERAGE_SPAN + 1
        }),
        forall|i: int| 0 <= i < durations@.len() ==>
            (#[trigger] windows@[i]).1 == sum_durations(durations@.subrange(i + 1 - windows@[i].2, i + 1)),
{
    let mut windows: Vec<(usize, u128, usize)> = Vec::new();
    let mut i: usize = 0;
    while i < durations.len()
        invariant
            i <= durations@.len(),
            windows@.len() == i,
            forall|k: int| 0 <= k < i ==> (#[trigger] windows@[k]).0 == durations@[k].0,
            forall|k: int| 0 <= k < i ==>
                (#[trigger] windows@[k]).1 == sum_durations(durations@.subrange(window_start(k), k + 1)),
            forall|k: int| 0 <= k < i ==> (#[trigger] windows@[k]).2 == k + 1 - window_start(k),
        decreases durations@.len() - i,
    {
        let start = if i >= MOVING_AVERAGE_SPAN { i - MOVING_AVERAGE_SPAN } else { 0 };
        let total = sum_range(durations, start, i + 1);
        windows.push((durations[i].0, total, i + 1 - start));
        i = i + 1;
    }
    windows
}

/// The window ending at index `i` starts at `max(0, i - MOVING_AVERAGE_SPAN)`:
/// at the first episode while fewer than `MOVING_AVERAGE_SPAN` come before,
/// `MOVING_AVERAGE_SPAN` episodes back after that, so it holds
/// `min(i + 1, MOVING_AVERAGE_SPAN + 1)` episodes.
pub proof fn lemma_window_start(i: int)
    requires
        0 <= i,
    ensures
        i < MOVING_AVERAGE_SPAN ==> window_start(i) == 0,
        i >= MOVING_AVERAGE_SPAN ==> window_start(i) == i - MOVING_AVERAGE_SPAN,
        0 <= window_start(i) <= i,
        i + 1 - window_start(i) == if i < MOVING_AVERAGE_SPAN { i + 1 } else { MOVING_AVERAGE_SPAN + 1 },
{
}

/// For each recorded episode, the total of the durations up to and
/// including it (the step axis of the exploration-rate chart).
pub fn cumulative_durations(durations: &Vec<(usize, usize)>) -> (totals: Vec<u128>)
    ensures
        totals@.len() == durations@.len(),
        forall|i: int| 0 <= i < durations@.len() ==>
            #[trigger] totals@[i] == sum_durations(durations@.subrange(0, i + 1)),
{
    let mut totals: Vec<u128> = Vec::new();
    let mut total: u128 = 0;
    let mut i: usize = 0;
    while i < durations.len()
        invariant
            i <= durations@.len(),
            totals@.len() == i,
            total == sum_durations(durations@.subrange(0, i as int)),
            forall|k: int| 0 <= k < i ==> #[trigger] totals@[k] == sum_durations(durations@.subrange(0, k + 1)),
        decreases durations@.len() - i,
    {
        proof {
            assert(durations@.subrange(0, i + 1).drop_last() =~= durations@.subrange(0, i as int));
            lemma_sum_bound(durations@.subrange(0, i as int));
            assert(i * (usize::MAX as nat) + usize::MAX <= u128::MAX) by (nonlinear_arith)
                requires i <= usize::MAX;
        }
        total = total + durations[i].1 as u128;
        totals.push(total);
        i = i + 1;
    }
    totals
}

/// The largest recorded duration, or `floor` if that is larger (the top of
/// the duration chart).
pub fn max_duration_or(durations: &Vec<(usize, usize)>, floor: usize) -> (top: usize)
    ensures
        top == max_duration(durations@, floor as nat),
{
    let mut top = floor;
    let mut i: usize = 0;
    while i < durations.len()
        invariant
            i <= durations@.len(),
            top == max_duration(durations@.subrange(0, i as int), floor as nat),
        decreases durations@.len() - i,
    {
        proof {
            assert(durations@.subrange(0, i + 1).drop_last() =~= durations@.subrange(0, i as int));
        }
        if durations[i].1 > top {
            top = durations[i].1;
        }
        i = i + 1;
    }
    assert(durations@.subrange(0, durations@.len() as int) =~= durations@);
    top
}

} // verus!
