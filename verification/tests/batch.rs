use dqn_cartpole::batch::{non_final_mask, non_final_next_states, spread_over_mask};

#[test]
fn mask_marks_non_final_transitions() {
    let next_states = vec![Some(1u32), None, Some(3), None, None];
    assert_eq!(non_final_mask(&next_states), vec![true, false, true, false, false]);
}

#[test]
fn compact_next_states_keep_batch_order() {
    let next_states = vec![None, Some(7u32), Some(9), None, Some(2)];
    assert_eq!(non_final_next_states(&next_states), vec![7, 9, 2]);
    let none: Vec<Option<u32>> = vec![None, None];
    assert!(non_final_next_states(&none).is_empty());
}

#[test]
fn spread_puts_values_back_in_place() {
    let mask = vec![false, true, true, false, true];
    let values = vec![0.5f32, 1.5, 2.5];
    assert_eq!(spread_over_mask(&mask, &values, 0.0), vec![0.0, 0.5, 1.5, 0.0, 2.5]);
}

// Spreading the compact next states over the mask gives back each
// transition's own next state.
#[test]
fn spread_of_compacted_states_lines_up() {
    let next_states = vec![Some(11u32), None, Some(13), Some(14), None];
    let mask = non_final_mask(&next_states);
    let compact = non_final_next_states(&next_states);
    let spread = spread_over_mask(&mask, &compact, 0);
    for (i, ns) in next_states.iter().enumerate() {
        match ns {
            Some(x) => assert_eq!(spread[i], *x),
            None => assert_eq!(spread[i], 0),
        }
    }
}

#[test]
fn spread_over_empty_mask() {
    let mask: Vec<bool> = vec![];
    let values: Vec<u8> = vec![];
    assert!(spread_over_mask(&mask, &values, 9).is_empty());
}
