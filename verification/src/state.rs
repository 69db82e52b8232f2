//! The saved state: the settings block as bytes, each single-precision
//! value in four little-endian bytes, in parameter order. Its length is its
//! layout: the current block, or the shorter one an earlier build wrote.

use vstd::prelude::*;
use crate::contract::{known_layout, PARAMETER_COUNT};
use crate::settings::{restored, settled, Settings};

verus! {

/// Length of the serialised state, in bytes.
pub const STATE_BYTES: usize = 88;

/// Byte `j` (least significant first) of a word.
pub open spec fn word_byte(word: u32, j: int) -> u8 {
    if j == 0 {
        (word % 0x100) as u8
    } else if j == 1 {
        ((word / 0x100) % 0x100) as u8
    } else if j == 2 {
        ((word / 0x1_0000) % 0x100) as u8
    } else {
        ((word / 0x100_0000) % 0x100) as u8
    }
}

/// Words laid out as little-endian bytes, one after another.
pub open spec fn encoded(words: Seq<u32>) -> Seq<u8> {
    Seq::new(words.len() * 4, |i: int| word_byte(words[i / 4], i % 4))
}

/// The word stored little-endian at bytes `4k .. 4k + 4`.
pub open spec fn word_at(bytes: Seq<u8>, k: int) -> u32 {
    (bytes[4 * k] + 0x100 * bytes[4 * k + 1] + 0x1_0000 * bytes[4 * k + 2] + 0x100_0000 * bytes[4 * k
        + 3]) as u32
}

/// The whole words a byte block holds.
pub open spec fn decoded(bytes: Seq<u8>) -> Seq<u32> {
    Seq::new(bytes.len() / 4, |k: int| word_at(bytes, k))
}

/// The settings a saved block restores, or `None` when it is refused: a
/// length that is not whole words, or whose word count belongs to no layout,
/// or a value outside the contract.
pub open spec fn state_settings(bytes: Seq<u8>) -> Option<Seq<u32>> {
    if bytes.len() % 4 != 0 {
        None
    } else {
        restored(decoded(bytes))
    }
}

pub proof fn lemma_word_bytes(word: u32)
    ensures
        word % 0x100 + 0x100 * ((word / 0x100) % 0x100) + 0x1_0000 * ((word / 0x1_0000) % 0x100)
            + 0x100_0000 * ((word / 0x100_0000) % 0x100) == word,
{
    assert(word % 0x100 + 0x100 * ((word / 0x100) % 0x100) + 0x1_0000 * ((word / 0x1_0000) % 0x100)
        + 0x100_0000 * ((word / 0x100_0000) % 0x100) == word) by (bit_vector);
}

/// Reading the bytes of words gives the words back.
pub proof fn lemma_decoded_encoded(words: Seq<u32>)
    ensures
        decoded(encoded(words)) == words,
{
    let bytes = encoded(words);
    assert forall|k: int| 0 <= k < words.len() implies #[trigger] word_at(bytes, k) == words[k] by {
        lemma_word_bytes(words[k]);
        assert((4 * k) / 4 == k && (4 * k + 1) / 4 == k && (4 * k + 2) / 4 == k && (4 * k + 3) / 4
            == k);
        assert((4 * k) % 4 == 0 && (4 * k + 1) % 4 == 1 && (4 * k + 2) % 4 == 2 && (4 * k + 3) % 4
            == 3);
    }
    assert(decoded(bytes) =~= words);
}

/// A saved block restores the settings it was saved from.
pub proof fn lemma_state_round_trip(values: Seq<u32>)
    requires
        settled(values),
    ensures
        state_settings(encoded(values)) == Some(values),
{
    lemma_decoded_encoded(values);
    assert(crate::settings::restored_values(values, PARAMETER_COUNT as int) =~= values);
}

/// Writes the state into the front of `destination` and returns its length,
/// or returns `None`, writing nothing, when `destination` is too short.
#[verifier::rlimit(40)]
pub fn save_state(settings: &Settings, destination: &mut [u8]) -> (written: Option<usize>)
    ensures
        old(destination)@.len() < STATE_BYTES ==> written is None && final(destination)@ == old(
            destination,
        )@,
        old(destination)@.len() >= STATE_BYTES ==> {
            &&& written == Some(STATE_BYTES)
            &&& final(destination)@ == encoded(settings@) + old(destination)@.subrange(
                STATE_BYTES as int,
                old(destination)@.len() as int,
            )
        },
{
    if destination.len() < STATE_BYTES {
        return None;
    }
    let values = settings.as_array();
    let ghost before = destination@;
    let mut index: usize = 0;
    while index < PARAMETER_COUNT
        invariant
            index <= PARAMETER_COUNT,
            values@ == settings@,
            values@.len() == PARAMETER_COUNT,
            destination@.len() == before.len() >= STATE_BYTES,
            forall|i: int| 0 <= i < 4 * index ==> #[trigger] destination@[i] == word_byte(values@[i / 4], i % 4),
            forall|i: int| 4 * index <= i < before.len() ==> #[trigger] destination@[i] == before[i],
        decreases PARAMETER_COUNT - index,
    {
        let word = values[index];
        let base = 4 * index;
        destination[base] = (word % 0x100) as u8;
        destination[base + 1] = ((word / 0x100) % 0x100) as u8;
        destination[base + 2] = ((word / 0x1_0000) % 0x100) as u8;
        destination[base + 3] = ((word / 0x100_0000) % 0x100) as u8;
        proof {
            assert forall|i: int| 4 * index <= i < 4 * (index + 1) implies #[trigger] destination@[i]
                == word_byte(values@[i / 4], i % 4) by {
                assert(i / 4 == index);
            }
        }
        index = index + 1;
    }
    assert(destination@ =~= encoded(settings@) + before.subrange(
        STATE_BYTES as int,
        before.len() as int,
    ));
    Some(STATE_BYTES)
}

/// Restores a saved block, including one written by an earlier build; see
/// [`state_settings`].
#[verifier::rlimit(40)]
pub fn load_state(state: &[u8]) -> (settings: Option<Settings>)
    ensures
        match state_settings(state@) {
            Some(expected) => settings matches Some(s) && s@ == expected,
            None => settings is None,
        },
{
    if state.len() % 4 != 0 {
        return None;
    }
    let count = state.len() / 4;
    if !known_layout(count) {
        return None;
    }
    let mut words: Vec<u32> = Vec::new();
    let mut index: usize = 0;
    while index < count
        invariant
            count == state@.len() / 4,
            state@.len() % 4 == 0,
            count <= PARAMETER_COUNT,
            index <= count,
            words@ == decoded(state@).subrange(0, index as int),
        decreases count - index,
    {
        let base = 4 * index;
        let word = state[base] as u32 + 0x100 * (state[base + 1] as u32) + 0x1_0000 * (state[base
            + 2] as u32) + 0x100_0000 * (state[base + 3] as u32);
        words.push(word);
        assert(words@ =~= decoded(state@).subrange(0, index + 1));
        index = index + 1;
    }
    assert(words@ =~= decoded(state@));
    Settings::from_slice(words.as_slice())
}

} // verus!
