use dqn_cartpole::state_file::{decode_state_samples, StateFileError};

#[test]
fn decodes_little_endian_words_by_state() {
    let mut bytes = Vec::new();
    for v in [1.0f32, -2.5, 0.25, 3.0, 4.5, 6.0] {
        bytes.extend_from_slice(&v.to_le_bytes());
    }
    let states = decode_state_samples(&bytes, 2).unwrap();
    assert_eq!(states.len(), 3);
    let as_floats: Vec<Vec<f32>> =
        states.iter().map(|s| s.iter().map(|w| f32::from_bits(*w)).collect()).collect();
    assert_eq!(as_floats, vec![vec![1.0, -2.5], vec![0.25, 3.0], vec![4.5, 6.0]]);
}

#[test]
fn word_value_is_little_endian() {
    let bytes = vec![0x01u8, 0x02, 0x03, 0x04];
    assert_eq!(decode_state_samples(&bytes, 1).unwrap(), vec![vec![0x0403_0201u32]]);
}

#[test]
fn rejects_size_not_multiple_of_four() {
    let bytes = vec![0u8; 7];
    assert_eq!(
        decode_state_samples(&bytes, 4),
        Err(StateFileError::SizeNotMultipleOfFour { byte_len: 7 })
    );
    // The size is checked first, so even a zero width is answered.
    assert_eq!(
        decode_state_samples(&bytes, 0),
        Err(StateFileError::SizeNotMultipleOfFour { byte_len: 7 })
    );
}

#[test]
fn rejects_count_not_divisible_by_width() {
    let bytes = vec![0u8; 20];
    assert_eq!(
        decode_state_samples(&bytes, 4),
        Err(StateFileError::CountNotDivisible { float_count: 5, obs_dim: 4 })
    );
}

#[test]
fn empty_file_has_no_states() {
    let bytes: Vec<u8> = Vec::new();
    assert_eq!(decode_state_samples(&bytes, 4), Ok(Vec::new()));
}

// Writing rows as little-endian bytes and reading them back gives the same
// bits, NaN payloads and negative zero included.
#[test]
fn written_rows_read_back_bit_for_bit() {
    let rows: Vec<Vec<f32>> = vec![
        vec![-0.0, f32::from_bits(0x7fc0_1234), f32::INFINITY],
        vec![1.5, f32::MIN_POSITIVE, -3.25],
    ];
    let mut bytes = Vec::new();
    for row in &rows {
        for v in row {
            bytes.extend_from_slice(&v.to_le_bytes());
        }
    }
    let states = decode_state_samples(&bytes, 3).unwrap();
    let expected: Vec<Vec<u32>> = rows.iter().map(|r| r.iter().map(|v| v.to_bits()).collect()).collect();
    assert_eq!(states, expected);
}
