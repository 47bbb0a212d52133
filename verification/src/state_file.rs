//! Layout of a binary file of sample states: little-endian 32-bit words, one
//! state after the other, each made of `obs_dim` words. The words are the bit
//! patterns of the `f32` values of the observations.

use vstd::prelude::*;

verus! {

/// Why a byte string is not a valid file of sample states.
#[derive(Debug, Clone, Copy, PartialEq, Eq)]
pub enum StateFileError {
    /// The number of bytes is not a multiple of four.
    SizeNotMultipleOfFour { byte_len: usize },
    /// The number of words is not a multiple of the state width.
    CountNotDivisible { float_count: usize, obs_dim: usize },
}

/// The little-endian 32-bit word made of bytes `k .. k + 4` of `bytes`.
pub open spec fn le_word(bytes: Seq<u8>, k: int) -> int {
    bytes[k] + 256 * bytes[k + 1] + 65536 * bytes[k + 2] + 16777216 * bytes[k + 3]
}

/// `states` holds `bytes` cut into states of `obs_dim` words each.
pub open spec fn splits_into_states(bytes: Seq<u8>, obs_dim: nat, states: Seq<Seq<u32>>) -> bool {
    &&& states.len() * obs_dim * 4 == bytes.len()
    &&& forall|i: int| 0 <= i < states.len() ==> (#[trigger] states[i]).len() == obs_dim
    &&& forall|i: int, j: int| 0 <= i < states.len() && 0 <= j < obs_dim ==>
        #[trigger] states[i][j] == le_word(bytes, (i * obs_dim + j) * 4)
}

proof fn lemma_word_in_range(i: int, j: int, d: int, n: int)
    by (nonlinear_arith)
    requires
        0 <= i < n,
        0 <= j < d,
    ensures
        i * d + j < n * d,
        i * d + d == (i + 1) * d,
        0 <= i * d,
{
}

proof fn lemma_states_fill_words(float_count: int, d: int)
    requires
        float_count >= 0,
        d > 0,
        float_count % d == 0,
    ensures
        (float_count / d) * d == float_count,
        float_count / d >= 0,
{
    vstd::arithmetic::div_mod::lemma_fundamental_div_mod(float_count, d);
    vstd::arithmetic::div_mod::lemma_div_pos_is_pos(float_count, d);
    vstd::arithmetic::mul::lemma_mul_is_commutative(float_count / d, d);
}

/// Cuts a file of sample states into its states. The byte count must be a
/// multiple of four and the word count a multiple of `obs_dim`; the file is
/// rejected otherwise, for the first of the two that fails. A zero `obs_dim`
/// cannot split any word count and is left out.
pub fn decode_state_samples(bytes: &Vec<u8>, obs_dim: usize) -> (result: Result<Vec<Vec<u32>>, StateFileError>)
    requires
        bytes@.len() % 4 != 0 || obs_dim > 0,
    ensures
        match result {
            Ok(states) => {
                &&& bytes@.len() % 4 == 0
                &&& (bytes@.len() / 4) % (obs_dim as nat) == 0
                &&& splits_into_states(bytes@, obs_dim as nat, states@.map_values(|s: Vec<u32>| s@))
            },
            Err(StateFileError::SizeNotMultipleOfFour { byte_len }) => {
                &&& bytes@.len() % 4 != 0
                &&& byte_len == bytes@.len()
            },
            Err(StateFileError::CountNotDivisible { float_count, obs_dim: width }) => {
                &&& bytes@.len() % 4 == 0
                &&& float_count == bytes@.len() / 4
                &&& float_count % obs_dim != 0
                &&& width == obs_dim
            },
        },
{
    let len = bytes.len();
    if len % 4 != 0 {
        return Err(StateFileError::SizeNotMultipleOfFour { byte_len: len });
    }
    let float_count = len / 4;
    if float_count % obs_dim != 0 {
        return Err(StateFileError::CountNotDivisible { float_count, obs_dim });
    }
    let num_states = float_count / obs_dim;
    proof {
        lemma_states_fill_words(float_count as int, obs_dim as int);
    }
    let ghost d = obs_dim as int;
    let mut states: Vec<Vec<u32>> = Vec::new();
    let mut idx: usize = 0;
    let mut i: usize = 0;
    while i < num_states
        invariant
            len == bytes@.len(),
            len == float_count * 4,
            d == obs_dim,
            d > 0,
            num_states * d == float_count,
            i <= num_states,
            idx == i * d * 4,
            states@.len() == i,
            forall|a: int| 0 <= a < i ==> (#[trigger] states@[a])@.len() == d,
            forall|a: int, b: int| 0 <= a < i && 0 <= b < d ==>
                #[trigger] states@[a]@[b] == le_word(bytes@, (a * d + b) * 4),
        decreases num_states - i,
    {
        let mut state: Vec<u32> = Vec::new();
        let mut j: usize = 0;
        while j < obs_dim
            invariant
                len == bytes@.len(),
                len == float_count * 4,
                d == obs_dim,
                d > 0,
                num_states * d == float_count,
                i < num_states,
                j <= d,
                idx == (i * d + j) * 4,
                state@.len() == j,
                forall|b: int| 0 <= b < j ==> #[trigger] state@[b] == le_word(bytes@, (i * d + b) * 4),
            decreases d - j,
        {
            proof {
                lemma_word_in_range(i as int, j as int, d, num_states as int);
            }
            let word: u32 = (bytes[idx] as u32) + (bytes[idx + 1] as u32) * 256 + (bytes[idx + 2] as u32) * 65536
                + (bytes[idx + 3] as u32) * 16777216;
            state.push(word);
            idx = idx + 4;
            j = j + 1;
        }
        proof {
            lemma_word_in_range(i as int, 0, d, num_states as int);
        }
        states.push(state);
        i = i + 1;
    }
    proof {
        let v = states@.map_values(|s: Vec<u32>| s@);
        assert(v.len() * d * 4 == bytes@.len()) by {
            assert(v.len() == num_states);
        }
        assert forall|a: int, b: int| 0 <= a < v.len() && 0 <= b < d implies
            #[trigger] v[a][b] == le_word(bytes@, (a * d + b) * 4) by {
            assert(v[a] == states@[a]@);
        }
    }
    Ok(states)
}

/// Byte `b` (0 for the least significant) of the little-endian encoding of
/// the word `w`.
pub open spec fn le_byte(w: u32, b: int) -> u8 {
    if b == 0 {
        (w & 0xff) as u8
    } else if b == 1 {
        ((w >> 8u32) & 0xff) as u8
    } else if b == 2 {
        ((w >> 16u32) & 0xff) as u8
    } else {
        ((w >> 24u32) & 0xff) as u8
    }
}

/// The file that holds `states`, each of `d` words, one word after the other
/// in little-endian byte order.
pub open spec fn encoded(states: Seq<Seq<u32>>, d: nat) -> Seq<u8> {
    Seq::new(states.len() * d * 4, |k: int| le_byte(states[k / (4 * (d as int))][(k / 4) % (d as int)], k % 4))
}

proof fn lemma_word_bytes(w: u32)
    ensures
        le_byte(w, 0) + 256 * le_byte(w, 1) + 65536 * le_byte(w, 2) + 16777216 * le_byte(w, 3) == w,
{
    assert((w & 0xff) + 256 * ((w >> 8u32) & 0xff) + 65536 * ((w >> 16u32) & 0xff) + 16777216 * ((w >> 24u32) & 0xff) == w)
        by (bit_vector);
    assert((w & 0xff) < 256 && ((w >> 8u32) & 0xff) < 256 && ((w >> 16u32) & 0xff) < 256 && ((w >> 24u32) & 0xff) < 256)
        by (bit_vector);
}

proof fn lemma_byte_position(i: int, j: int, b: int, d: int)
    requires
        0 <= i,
        0 <= j < d,
        0 <= b < 4,
    ensures
        ((i * d + j) * 4 + b) / (4 * d) == i,
        (((i * d + j) * 4 + b) / 4) % d == j,
        ((i * d + j) * 4 + b) % 4 == b,
{
    let k = (i * d + j) * 4 + b;
    assert(k == (i * d + j) * 4 + b);
    vstd::arithmetic::div_mod::lemma_fundamental_div_mod_converse(k, 4, i * d + j, b);
    vstd::arithmetic::div_mod::lemma_fundamental_div_mod_converse(i * d + j, d, i, j);
    assert(k == i * (4 * d) + (4 * j + b)) by (nonlinear_arith)
        requires k == (i * d + j) * 4 + b;
    assert(0 <= 4 * j + b < 4 * d);
    vstd::arithmetic::div_mod::lemma_fundamental_div_mod_converse(k, 4 * d, i, 4 * j + b);
}

/// Reading back a written file gives the states that were written: the
/// little-endian encoding of rows of `d > 0` words each passes both size
/// checks, and the only way to cut it into states of `d` words is into
/// those rows. With `decode_state_samples`'s contract, decoding returns
/// exactly `states`; an empty file gives no states.
pub proof fn lemma_decode_round_trip(states: Seq<Seq<u32>>, d: nat)
    requires
        d > 0,
        forall|i: int| 0 <= i < states.len() ==> (#[trigger] states[i]).len() == d,
    ensures
        encoded(states, d).len() % 4 == 0,
        (encoded(states, d).len() / 4) % d == 0,
        splits_into_states(encoded(states, d), d, states),
        forall|r: Seq<Seq<u32>>| #[trigger] splits_into_states(encoded(states, d), d, r) ==> r == states,
{
    let bytes = encoded(states, d);
    let n = states.len();
    assert(bytes.len() == (n * d) * 4) by (nonlinear_arith)
        requires bytes.len() == n * d * 4;
    vstd::arithmetic::div_mod::lemma_fundamental_div_mod_converse(bytes.len() as int, 4, (n * d) as int, 0);
    vstd::arithmetic::div_mod::lemma_fundamental_div_mod_converse((n * d) as int, d as int, n as int, 0);
    assert forall|i: int, j: int| 0 <= i < n && 0 <= j < d implies #[trigger] states[i][j] == le_word(bytes, (i * d + j) * 4) by {
        let k = (i * d + j) * 4;
        assert(0 <= i * d + j < n * d) by (nonlinear_arith)
            requires 0 <= i < n, 0 <= j < d;
        assert(k + 3 < bytes.len()) by (nonlinear_arith)
            requires k == (i * d + j) * 4, i * d + j < n * d, bytes.len() == n * d * 4;
        lemma_byte_position(i, j, 0, d as int);
        lemma_byte_position(i, j, 1, d as int);
        lemma_byte_position(i, j, 2, d as int);
        lemma_byte_position(i, j, 3, d as int);
        assert(bytes[k] == le_byte(states[i][j], 0));
        assert(bytes[k + 1] == le_byte(states[i][j], 1));
        assert(bytes[k + 2] == le_byte(states[i][j], 2));
        assert(bytes[k + 3] == le_byte(states[i][j], 3));
        lemma_word_bytes(states[i][j]);
    }
    assert(splits_into_states(bytes, d, states));
    assert forall|r: Seq<Seq<u32>>| #[trigger] splits_into_states(bytes, d, r) implies r == states by {
        assert(r.len() == n) by {
            assert(r.len() * d * 4 == n * d * 4);
            vstd::arithmetic::mul::lemma_mul_is_commutative(r.len() as int, d as int);
            assert(r.len() * (d * 4) == n * (d * 4)) by (nonlinear_arith)
                requires r.len() * d * 4 == n * d * 4;
            vstd::arithmetic::mul::lemma_mul_equality_converse((d * 4) as int, r.len() as int, n as int);
        }
        assert forall|i: int| 0 <= i < n implies r[i] == states[i] by {
            assert(r[i] =~= states[i]) by {
                assert forall|j: int| 0 <= j < d implies r[i][j] == states[i][j] by {
                    assert(r[i][j] == le_word(bytes, (i * d + j) * 4));
                    assert(states[i][j] == le_word(bytes, (i * d + j) * 4));
                }
            }
        }
        assert(r =~= states);
    }
}

} // verus!
