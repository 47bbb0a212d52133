//! Bookkeeping of one optimization step: which transitions of a batch have a
//! next state, the compact list of those next states that goes through the
//! target network, and the spreading of its values back over the batch.

use vstd::prelude::*;

verus! {

/// Number of `true` entries of `mask`.
pub open spec fn count_true(mask: Seq<bool>) -> nat
    decreases mask.len(),
{
    if mask.len() == 0 {
        0
    } else {
        count_true(mask.drop_last()) + if mask.last() { 1nat } else { 0nat }
    }
}

/// The values inside the `Some` entries of `s`, in order.
pub open spec fn present<X>(s: Seq<Option<X>>) -> Seq<X>
    decreases s.len(),
{
    if s.len() == 0 {
        Seq::empty()
    } else {
        match s.last() {
            Some(x) => present(s.drop_last()).push(x),
            None => present(s.drop_last()),
        }
    }
}

/// `true` exactly where `s` holds a value.
pub open spec fn mask_of<X>(s: Seq<Option<X>>) -> Seq<bool> {
    Seq::new(s.len(), |i: int| s[i] is Some)
}

/// Entry `i` of the spread of `values` over `mask`: the next unused value
/// where the mask is set, `fill` elsewhere.
pub open spec fn spread_at<V>(mask: Seq<bool>, values: Seq<V>, fill: V, i: int) -> V {
    if mask[i] {
        values[count_true(mask.take(i)) as int]
    } else {
        fill
    }
}

/// Marks the transitions of a batch that are not final (that have a next
/// state).
pub fn non_final_mask<X>(next_states: &Vec<Option<X>>) -> (mask: Vec<bool>)
    ensures
        mask@ == mask_of(next_states@),
{
    let mut mask: Vec<bool> = Vec::new();
    let mut i: usize = 0;
    while i < next_states.len()
        invariant
            i <= next_states@.len(),
            mask@.len() == i,
            forall|j: int| 0 <= j < i ==> #[trigger] mask@[j] == next_states@[j] is Some,
        decreases next_states@.len() - i,
    {
        mask.push(next_states[i].is_some());
        i = i + 1;
    }
    assert(mask@ =~= mask_of(next_states@));
    mask
}

/// The next states of the non-final transitions, in batch order: the rows
/// the target network is evaluated on.
pub fn non_final_next_states<X: Copy>(next_states: &Vec<Option<X>>) -> (states: Vec<X>)
    ensures
        states@ == present(next_states@),
{
    let mut states: Vec<X> = Vec::new();
    let mut i: usize = 0;
    while i < next_states.len()
        invariant
            i <= next_states@.len(),
            states@ == present(next_states@.take(i as int)),
        decreases next_states@.len() - i,
    {
        proof {
            assert(next_states@.take(i + 1).drop_last() =~= next_states@.take(i as int));
        }
        match next_states[i] {
            Some(x) => states.push(x),
            None => {},
        }
        i = i + 1;
    }
    assert(next_states@.take(next_states@.len() as int) =~= next_states@);
    states
}

/// A prefix of `mask` counts no more set entries than the whole.
pub proof fn lemma_count_true_prefix(mask: Seq<bool>, i: int)
    requires
        0 <= i <= mask.len(),
    ensures
        count_true(mask.take(i)) <= count_true(mask),
    decreases mask.len() - i,
{
    if i < mask.len() {
        lemma_count_true_prefix(mask, i + 1);
        assert(mask.take(i + 1).drop_last() =~= mask.take(i));
    } else {
        assert(mask.take(i) =~= mask);
    }
}

/// Spreads the compact `values` back over the batch: position `i` gets the
/// next unused value when `mask[i]` is set, `fill` otherwise. There must be
/// a value for every set entry of the mask.
pub fn spread_over_mask<V: Copy>(mask: &Vec<bool>, values: &Vec<V>, fill: V) -> (spread: Vec<V>)
    requires
        count_true(mask@) <= values@.len(),
    ensures
        spread@.len() == mask@.len(),
        forall|i: int| 0 <= i < mask@.len() ==> #[trigger] spread@[i] == spread_at(mask@, values@, fill, i),
        forall|i: int| 0 <= i < mask@.len() && !mask@[i] ==> #[trigger] spread@[i] == fill,
        forall|i: int| 0 <= i < mask@.len() && mask@[i] ==>
            #[trigger] spread@[i] == values@[count_true(mask@.take(i)) as int],
{
    let mut spread: Vec<V> = Vec::new();
    let values_len = values.len();
    let mut j: usize = 0;
    let mut i: usize = 0;
    while i < mask.len()
        invariant
            i <= mask@.len(),
            count_true(mask@) <= values@.len(),
            values_len == values@.len(),
            j == count_true(mask@.take(i as int)),
            spread@.len() == i,
            forall|k: int| 0 <= k < i ==> #[trigger] spread@[k] == spread_at(mask@, values@, fill, k),
        decreases mask@.len() - i,
    {
        proof {
            assert(mask@.take(i + 1).drop_last() =~= mask@.take(i as int));
            lemma_count_true_prefix(mask@, i + 1);
            assert(mask@.take(i + 1).last() == mask@[i as int]);
            assert(count_true(mask@.take(i + 1)) == j + if mask@[i as int] { 1nat } else { 0nat });
        }
        if mask[i] {
            assert(j < values_len);
            spread.push(values[j]);
            j = j + 1;
        } else {
            spread.push(fill);
        }
        i = i + 1;
    }
    spread
}

/// `count_true` counts the set entries: it is the length of the mask with
/// every unset entry filtered out.
pub proof fn lemma_count_true_is_filter_len(mask: Seq<bool>)
    ensures
        count_true(mask) == mask.filter(|b: bool| b).len(),
    decreases mask.len(),
{
    reveal(Seq::filter);
    if mask.len() > 0 {
        lemma_count_true_is_filter_len(mask.drop_last());
    }
}

/// Counting the set entries of a prefix: one more past each set entry, as
/// many past each unset one.
pub proof fn lemma_count_true_step(mask: Seq<bool>, i: int)
    requires
        0 <= i < mask.len(),
    ensures
        count_true(mask.take(i + 1)) == count_true(mask.take(i)) + if mask[i] { 1nat } else { 0nat },
{
    assert(mask.take(i + 1).drop_last() =~= mask.take(i));
}

/// A terminal transition (unset mask entry) always gets the fill value,
/// whatever the entries around it; a non-terminal one gets the value of its
/// own row, the one after the rows of the non-terminal transitions before
/// it, and that row exists.
pub proof fn lemma_spread_at_entries<V>(mask: Seq<bool>, values: Seq<V>, fill: V)
    requires
        count_true(mask) <= values.len(),
    ensures
        forall|i: int| 0 <= i < mask.len() && !mask[i] ==> #[trigger] spread_at(mask, values, fill, i) == fill,
        forall|i: int| 0 <= i < mask.len() && mask[i] ==>
            #[trigger] spread_at(mask, values, fill, i) == values[count_true(mask.take(i)) as int]
            && count_true(mask.take(i)) < values.len(),
{
    assert forall|i: int| 0 <= i < mask.len() && mask[i] implies count_true(mask.take(i)) < values.len() by {
        lemma_count_true_step(mask, i);
        lemma_count_true_prefix(mask, i + 1);
    }
}

/// Set entries of the mask of `s` before position `i` are as many as the
/// values of `s` before `i`.
pub proof fn lemma_count_matches_present<X>(s: Seq<Option<X>>, i: int)
    requires
        0 <= i <= s.len(),
    ensures
        count_true(mask_of(s).take(i)) == present(s.take(i)).len(),
    decreases i,
{
    if i > 0 {
        lemma_count_matches_present(s, i - 1);
        assert(mask_of(s).take(i).drop_last() =~= mask_of(s).take(i - 1));
        assert(s.take(i).drop_last() =~= s.take(i - 1));
    } else {
        assert(mask_of(s).take(i) =~= Seq::<bool>::empty());
        assert(s.take(i) =~= Seq::<Option<X>>::empty());
    }
}

/// The values of a prefix of `s` are a prefix of the values of `s`.
pub proof fn lemma_present_prefix<X>(s: Seq<Option<X>>, i: int)
    requires
        0 <= i <= s.len(),
    ensures
        present(s.take(i)).len() <= present(s).len(),
        present(s).take(present(s.take(i)).len() as int) == present(s.take(i)),
    decreases s.len(),
{
    if i == s.len() {
        assert(s.take(i) =~= s);
        assert(present(s).take(present(s).len() as int) =~= present(s));
    } else {
        let shorter = s.drop_last();
        assert(s.take(i) =~= shorter.take(i));
        lemma_present_prefix(shorter, i);
        let p = present(s.take(i));
        assert(present(s).take(p.len() as int) =~= present(shorter).take(p.len() as int));
    }
}

/// The spread lines up with the batch: where a transition of the batch has a
/// next state, the value spread to its position is the one computed for the
/// row that `non_final_next_states` made of that very state; the compact
/// list has one row per set entry of the mask.
pub proof fn lemma_spread_lines_up<X>(next_states: Seq<Option<X>>)
    ensures
        count_true(mask_of(next_states)) == present(next_states).len(),
        forall|i: int| 0 <= i < next_states.len() && next_states[i] is Some ==>
            #[trigger] spread_at(mask_of(next_states), present(next_states), next_states[i]->0, i) == next_states[i]->0,
{
    lemma_count_matches_present(next_states, next_states.len() as int);
    assert(mask_of(next_states).take(next_states.len() as int) =~= mask_of(next_states));
    assert(next_states.take(next_states.len() as int) =~= next_states);
    assert forall|i: int| 0 <= i < next_states.len() && next_states[i] is Some implies
        #[trigger] spread_at(mask_of(next_states), present(next_states), next_states[i]->0, i) == next_states[i]->0 by {
        lemma_count_matches_present(next_states, i);
        lemma_present_prefix(next_states, i + 1);
        let before = present(next_states.take(i));
        let upto = present(next_states.take(i + 1));
        assert(next_states.take(i + 1).drop_last() =~= next_states.take(i));
        assert(upto == before.push(next_states[i]->0));
        assert(present(next_states).take(upto.len() as int)[before.len() as int] == next_states[i]->0);
    }
}

} // verus!
