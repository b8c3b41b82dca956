//! The bytes of a remote update on the transport.
//!
//! A message is a run of 32-bit words, each as four bytes, low byte first:
//! the protocol version in two words, the kind of update in one, then the
//! fields of the update, 64-bit numbers as two words with the low one first.

use vstd::prelude::*;
use vstd::bytes::{
    lemma_auto_spec_u32_to_from_le_bytes, spec_u32_from_le_bytes, spec_u32_to_le_bytes,
    u32_from_le_bytes, u32_to_le_bytes,
};
use vstd::slice::slice_subrange;
use crate::action::ActionEventData;
use crate::channel::RemoteUpdate;
use crate::entity::{EntityState, Quat, Vec3};
use crate::scalar::Scalar;

verus! {

/// The word that marks a confirmed input.
pub const KIND_INPUT: u32 = 0;

/// The word that marks an authoritative state.
pub const KIND_STATE: u32 = 1;

/// The number of words of a confirmed input.
pub const INPUT_WORDS: usize = 14;

/// The number of words of an authoritative state.
pub const STATE_WORDS: usize = 19;

/// The number of values of a word.
pub const WORD_RANGE: u64 = 0x1_0000_0000;

/// The low half of a 64-bit number.
pub open spec fn low_word(x: u64) -> u32 {
    (x % WORD_RANGE) as u32
}

/// The high half of a 64-bit number.
pub open spec fn high_word(x: u64) -> u32 {
    (x / WORD_RANGE) as u32
}

/// The 64-bit number of two halves.
pub open spec fn joined(low: u32, high: u32) -> u64 {
    (high * WORD_RANGE + low) as u64
}

/// The bytes of a run of words.
pub open spec fn bytes_of(words: Seq<u32>) -> Seq<u8> {
    Seq::new(4 * words.len(), |i: int| spec_u32_to_le_bytes(words[i / 4])[i % 4])
}

/// The words of a run of bytes whose length is a multiple of four.
pub open spec fn words_of(bytes: Seq<u8>) -> Seq<u32> {
    Seq::new(
        bytes.len() / 4,
        |k: int| spec_u32_from_le_bytes(bytes.subrange(4 * k, 4 * k + 4)),
    )
}

/// The words of a remote update under a protocol version.
pub open spec fn words_of_update(protocol_id: u64, update: RemoteUpdate) -> Seq<u32> {
    match update {
        RemoteUpdate::Input { actor_id, tick, action_vector } => seq![
            low_word(protocol_id),
            high_word(protocol_id),
            KIND_INPUT,
            low_word(actor_id),
            high_word(actor_id),
            low_word(tick),
            high_word(tick),
            action_vector.thrust.bits,
            action_vector.roll.bits,
            action_vector.pitch.bits,
            action_vector.yaw.bits,
            action_vector.action1.bits,
            action_vector.action2.bits,
            action_vector.auto_balance.bits,
        ],
        RemoteUpdate::AuthoritativeState { tick, entity_state } => seq![
            low_word(protocol_id),
            high_word(protocol_id),
            KIND_STATE,
            low_word(tick),
            high_word(tick),
            entity_state.position.x.bits,
            entity_state.position.y.bits,
            entity_state.position.z.bits,
            entity_state.rotation.x.bits,
            entity_state.rotation.y.bits,
            entity_state.rotation.z.bits,
            entity_state.rotation.w.bits,
            entity_state.linear_velocity.x.bits,
            entity_state.linear_velocity.y.bits,
            entity_state.linear_velocity.z.bits,
            entity_state.angular_velocity.x.bits,
            entity_state.angular_velocity.y.bits,
            entity_state.angular_velocity.z.bits,
            if entity_state.auto_balance {
                1u32
            } else {
                0u32
            },
        ],
    }
}

/// The remote update that a run of words stands for, with its protocol
/// version, if the run is a well-formed message.
pub open spec fn update_of_words(words: Seq<u32>) -> Option<(u64, RemoteUpdate)> {
    if words.len() == INPUT_WORDS && words[2] == KIND_INPUT {
        Some(
            (
                joined(words[0], words[1]),
                RemoteUpdate::Input {
                    actor_id: joined(words[3], words[4]),
                    tick: joined(words[5], words[6]),
                    action_vector: ActionEventData {
                        thrust: Scalar { bits: words[7] },
                        roll: Scalar { bits: words[8] },
                        pitch: Scalar { bits: words[9] },
                        yaw: Scalar { bits: words[10] },
                        action1: Scalar { bits: words[11] },
                        action2: Scalar { bits: words[12] },
                        auto_balance: Scalar { bits: words[13] },
                    },
                },
            ),
        )
    } else if words.len() == STATE_WORDS && words[2] == KIND_STATE && words[18] <= 1 {
        Some(
            (
                joined(words[0], words[1]),
                RemoteUpdate::AuthoritativeState {
                    tick: joined(words[3], words[4]),
                    entity_state: EntityState {
                        position: Vec3 {
                            x: Scalar { bits: words[5] },
                            y: Scalar { bits: words[6] },
                            z: Scalar { bits: words[7] },
                        },
                        rotation: Quat {
                            x: Scalar { bits: words[8] },
                            y: Scalar { bits: words[9] },
                            z: Scalar { bits: words[10] },
                            w: Scalar { bits: words[11] },
                        },
                        linear_velocity: Vec3 {
                            x: Scalar { bits: words[12] },
                            y: Scalar { bits: words[13] },
                            z: Scalar { bits: words[14] },
                        },
                        angular_velocity: Vec3 {
                            x: Scalar { bits: words[15] },
                            y: Scalar { bits: words[16] },
                            z: Scalar { bits: words[17] },
                        },
                        auto_balance: words[18] == 1,
                    },
                },
            ),
        )
    } else {
        None
    }
}

/// The bytes of a remote update under a protocol version.
pub open spec fn encoded(protocol_id: u64, update: RemoteUpdate) -> Seq<u8> {
    bytes_of(words_of_update(protocol_id, update))
}

/// The remote update that the bytes stand for, with its protocol version,
/// if the bytes are a well-formed message.
pub open spec fn decoded(bytes: Seq<u8>) -> Option<(u64, RemoteUpdate)> {
    if bytes.len() % 4 == 0 {
        update_of_words(words_of(bytes))
    } else {
        None
    }
}

/// The words of the bytes of a run of words are that run.
pub proof fn lemma_words_round_trip(words: Seq<u32>)
    ensures
        bytes_of(words).len() == 4 * words.len(),
        words_of(bytes_of(words)) == words,
{
    lemma_auto_spec_u32_to_from_le_bytes();
    let bytes = bytes_of(words);
    assert forall|k: int| 0 <= k < words.len() implies words_of(bytes)[k] == words[k] by {
        let chunk = bytes.subrange(4 * k, 4 * k + 4);
        let exact = spec_u32_to_le_bytes(words[k]);
        assert(exact.len() == 4);
        assert forall|j: int| 0 <= j < 4 implies chunk[j] == exact[j] by {
            assert((4 * k + j) / 4 == k);
            assert((4 * k + j) % 4 == j);
        }
        assert(chunk =~= exact);
    }
    assert(words_of(bytes) =~= words);
}

/// The bytes of the words of a run of bytes are that run, where its length
/// is a multiple of four.
pub proof fn lemma_bytes_round_trip(bytes: Seq<u8>)
    requires
        bytes.len() % 4 == 0,
    ensures
        bytes_of(words_of(bytes)) == bytes,
{
    lemma_auto_spec_u32_to_from_le_bytes();
    let words = words_of(bytes);
    assert forall|i: int| 0 <= i < bytes.len() implies bytes_of(words)[i] == bytes[i] by {
        let k = i / 4;
        let chunk = bytes.subrange(4 * k, 4 * k + 4);
        assert(chunk.len() == 4);
        assert(spec_u32_to_le_bytes(spec_u32_from_le_bytes(chunk)) == chunk);
        assert(chunk[i % 4] == bytes[4 * k + i % 4]);
    }
    assert(bytes_of(words) =~= bytes);
}

/// The two halves of a number join to it, and the halves of a joined number
/// are the two that were joined.
pub proof fn lemma_halves(x: u64, low: u32, high: u32)
    ensures
        joined(low_word(x), high_word(x)) == x,
        low_word(joined(low, high)) == low,
        high_word(joined(low, high)) == high,
{
}

/// Round trip: what was encoded is decoded again, with its protocol version.
pub proof fn law_decoding_undoes_encoding(protocol_id: u64, update: RemoteUpdate)
    ensures
        decoded(encoded(protocol_id, update)) == Some((protocol_id, update)),
{
    let words = words_of_update(protocol_id, update);
    lemma_words_round_trip(words);
    match update {
        RemoteUpdate::Input { actor_id, tick, action_vector } => {
            lemma_halves(protocol_id, 0, 0);
            lemma_halves(actor_id, 0, 0);
            lemma_halves(tick, 0, 0);
        },
        RemoteUpdate::AuthoritativeState { tick, entity_state } => {
            lemma_halves(protocol_id, 0, 0);
            lemma_halves(tick, 0, 0);
        },
    }
}

/// Only its own encoding decodes to an update: no two messages stand for the
/// same update under the same protocol version.
pub proof fn law_encoding_undoes_decoding(bytes: Seq<u8>)
    requires
        decoded(bytes) is Some,
    ensures
        encoded(decoded(bytes)->Some_0.0, decoded(bytes)->Some_0.1) == bytes,
{
    let words = words_of(bytes);
    let (protocol_id, update) = decoded(bytes)->Some_0;
    lemma_bytes_round_trip(bytes);
    lemma_halves(0, words[0], words[1]);
    lemma_halves(0, words[3], words[4]);
    if words.len() == INPUT_WORDS && words[2] == KIND_INPUT {
        lemma_halves(0, words[5], words[6]);
    }
    assert(words_of_update(protocol_id, update) =~= words);
}

fn low_half(x: u64) -> (w: u32)
    ensures
        w == low_word(x),
{
    (x % WORD_RANGE) as u32
}

fn high_half(x: u64) -> (w: u32)
    ensures
        w == high_word(x),
{
    (x / WORD_RANGE) as u32
}

fn join(low: u32, high: u32) -> (x: u64)
    ensures
        x == joined(low, high),
{
    high as u64 * WORD_RANGE + low as u64
}

fn flag_word(flag: bool) -> (w: u32)
    ensures
        w == (if flag {
            1u32
        } else {
            0u32
        }),
{
    if flag {
        1
    } else {
        0
    }
}

/// The bytes of a run of words.
fn pack(words: &Vec<u32>) -> (bytes: Vec<u8>)
    ensures
        bytes@ == bytes_of(words@),
{
    let mut bytes: Vec<u8> = Vec::new();
    let mut k: usize = 0;
    while k < words.len()
        invariant
            k <= words@.len(),
            bytes@.len() == 4 * k,
            forall|i: int|
                0 <= i < 4 * k ==> bytes@[i] == spec_u32_to_le_bytes(words@[i / 4])[i % 4],
        decreases words@.len() - k,
    {
        let four: Vec<u8> = u32_to_le_bytes(words[k]);
        let ghost before = bytes@;
        bytes.push(four[0]);
        bytes.push(four[1]);
        bytes.push(four[2]);
        bytes.push(four[3]);
        proof {
            assert forall|i: int| 0 <= i < 4 * (k + 1) implies bytes@[i] == spec_u32_to_le_bytes(
                words@[i / 4],
            )[i % 4] by {
                if i < 4 * k {
                    assert(bytes@[i] == before[i]);
                } else {
                    assert(i / 4 == k);
                }
            }
        }
        k = k + 1;
    }
    assert(bytes@ =~= bytes_of(words@));
    bytes
}

/// The words of a run of bytes, where its length is a multiple of four.
fn unpack(bytes: &[u8]) -> (words: Option<Vec<u32>>)
    ensures
        match words {
            Some(w) => bytes@.len() % 4 == 0 && w@ == words_of(bytes@),
            None => bytes@.len() % 4 != 0,
        },
{
    if bytes.len() % 4 != 0 {
        return None;
    }
    let count: usize = bytes.len() / 4;
    let mut words: Vec<u32> = Vec::new();
    let mut k: usize = 0;
    while k < count
        invariant
            4 * count == bytes@.len(),
            bytes@.len() <= usize::MAX,
            k <= count,
            words@.len() == k,
            forall|i: int|
                0 <= i < k ==> words@[i] == spec_u32_from_le_bytes(
                    bytes@.subrange(4 * i, 4 * i + 4),
                ),
        decreases count - k,
    {
        let chunk: &[u8] = slice_subrange(bytes, 4 * k, 4 * k + 4);
        words.push(u32_from_le_bytes(chunk));
        k = k + 1;
    }
    assert(words@ =~= words_of(bytes@));
    Some(words)
}

/// Encodes a remote update for the transport.
pub fn encode(protocol_id: u64, update: &RemoteUpdate) -> (bytes: Vec<u8>)
    ensures
        bytes@ == encoded(protocol_id, *update),
{
    let mut words: Vec<u32> = Vec::new();
    words.push(low_half(protocol_id));
    words.push(high_half(protocol_id));
    match update {
        RemoteUpdate::Input { actor_id, tick, action_vector } => {
            words.push(KIND_INPUT);
            words.push(low_half(*actor_id));
            words.push(high_half(*actor_id));
            words.push(low_half(*tick));
            words.push(high_half(*tick));
            words.push(action_vector.thrust.bits);
            words.push(action_vector.roll.bits);
            words.push(action_vector.pitch.bits);
            words.push(action_vector.yaw.bits);
            words.push(action_vector.action1.bits);
            words.push(action_vector.action2.bits);
            words.push(action_vector.auto_balance.bits);
        },
        RemoteUpdate::AuthoritativeState { tick, entity_state } => {
            words.push(KIND_STATE);
            words.push(low_half(*tick));
            words.push(high_half(*tick));
            words.push(entity_state.position.x.bits);
            words.push(entity_state.position.y.bits);
            words.push(entity_state.position.z.bits);
            words.push(entity_state.rotation.x.bits);
            words.push(entity_state.rotation.y.bits);
            words.push(entity_state.rotation.z.bits);
            words.push(entity_state.rotation.w.bits);
            words.push(entity_state.linear_velocity.x.bits);
            words.push(entity_state.linear_velocity.y.bits);
            words.push(entity_state.linear_velocity.z.bits);
            words.push(entity_state.angular_velocity.x.bits);
            words.push(entity_state.angular_velocity.y.bits);
            words.push(entity_state.angular_velocity.z.bits);
            words.push(flag_word(entity_state.auto_balance));
        },
    }
    assert(words@ =~= words_of_update(protocol_id, *update));
    pack(&words)
}

/// Decodes what the transport received: the update and the protocol
/// version it was sent under, or `None` where the bytes are no message.
pub fn decode(bytes: &[u8]) -> (r: Option<(u64, RemoteUpdate)>)
    ensures
        r == decoded(bytes@),
{
    let words: Vec<u32> = match unpack(bytes) {
        Some(words) => words,
        None => {
            return None;
        },
    };
    if words.len() == INPUT_WORDS && words[2] == KIND_INPUT {
        Some(
            (
                join(words[0], words[1]),
                RemoteUpdate::Input {
                    actor_id: join(words[3], words[4]),
                    tick: join(words[5], words[6]),
                    action_vector: ActionEventData {
                        thrust: Scalar { bits: words[7] },
                        roll: Scalar { bits: words[8] },
                        pitch: Scalar { bits: words[9] },
                        yaw: Scalar { bits: words[10] },
                        action1: Scalar { bits: words[11] },
                        action2: Scalar { bits: words[12] },
                        auto_balance: Scalar { bits: words[13] },
                    },
                },
            ),
        )
    } else if words.len() == STATE_WORDS && words[2] == KIND_STATE && words[18] <= 1 {
        Some(
            (
                join(words[0], words[1]),
                RemoteUpdate::AuthoritativeState {
                    tick: join(words[3], words[4]),
                    entity_state: EntityState {
                        position: Vec3 {
                            x: Scalar { bits: words[5] },
                            y: Scalar { bits: words[6] },
                            z: Scalar { bits: words[7] },
                        },
                        rotation: Quat {
                            x: Scalar { bits: words[8] },
                            y: Scalar { bits: words[9] },
                            z: Scalar { bits: words[10] },
                            w: Scalar { bits: words[11] },
                        },
                        linear_velocity: Vec3 {
                            x: Scalar { bits: words[12] },
                            y: Scalar { bits: words[13] },
                            z: Scalar { bits: words[14] },
                        },
                        angular_velocity: Vec3 {
                            x: Scalar { bits: words[15] },
                            y: Scalar { bits: words[16] },
                            z: Scalar { bits: words[17] },
                        },
                        auto_balance: words[18] == 1,
                    },
                },
            ),
        )
    } else {
        None
    }
}

} // verus!
