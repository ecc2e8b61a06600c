//! The SHA-256 digest that identifies quarantined journal bytes.

use vstd::prelude::*;

use crate::text;

verus! {

/// The sixty-four round constants.
pub open spec fn round_constants() -> Seq<u32> {
    ROUND_CONSTANTS@
}

/// The sixty-four round constants.
pub const ROUND_CONSTANTS: [u32; 64] = [
    0x428a2f98, 0x71374491, 0xb5c0fbcf, 0xe9b5dba5, 0x3956c25b, 0x59f111f1, 0x923f82a4, 0xab1c5ed5,
    0xd807aa98, 0x12835b01, 0x243185be, 0x550c7dc3, 0x72be5d74, 0x80deb1fe, 0x9bdc06a7, 0xc19bf174,
    0xe49b69c1, 0xefbe4786, 0x0fc19dc6, 0x240ca1cc, 0x2de92c6f, 0x4a7484aa, 0x5cb0a9dc, 0x76f988da,
    0x983e5152, 0xa831c66d, 0xb00327c8, 0xbf597fc7, 0xc6e00bf3, 0xd5a79147, 0x06ca6351, 0x14292967,
    0x27b70a85, 0x2e1b2138, 0x4d2c6dfc, 0x53380d13, 0x650a7354, 0x766a0abb, 0x81c2c92e, 0x92722c85,
    0xa2bfe8a1, 0xa81a664b, 0xc24b8b70, 0xc76c51a3, 0xd192e819, 0xd6990624, 0xf40e3585, 0x106aa070,
    0x19a4c116, 0x1e376c08, 0x2748774c, 0x34b0bcb5, 0x391c0cb3, 0x4ed8aa4a, 0x5b9cca4f, 0x682e6ff3,
    0x748f82ee, 0x78a5636f, 0x84c87814, 0x8cc70208, 0x90befffa, 0xa4506ceb, 0xbef9a3f7, 0xc67178f2,
];

/// The eight working words of the compression function.
#[derive(Clone, Copy, Debug, PartialEq, Eq)]
pub struct HashState {
    pub a: u32,
    pub b: u32,
    pub c: u32,
    pub d: u32,
    pub e: u32,
    pub f: u32,
    pub g: u32,
    pub h: u32,
}

/// The words that hashing starts from.
pub open spec fn initial_state() -> HashState {
    HashState {
        a: 0x6a09e667,
        b: 0xbb67ae85,
        c: 0x3c6ef372,
        d: 0xa54ff53a,
        e: 0x510e527f,
        f: 0x9b05688c,
        g: 0x1f83d9ab,
        h: 0x5be0cd19,
    }
}

/// A word rotated to the right.
pub open spec fn rotated(word: u32, count: u32) -> u32 {
    (word >> count) | (word << ((32 - count) as u32))
}

/// Rotates a word to the right.
fn rotate(word: u32, count: u32) -> (result: u32)
    requires
        0 < count < 32,
    ensures
        result == rotated(word, count),
{
    (word >> count) | (word << (32 - count))
}

/// The first mixing function of the message schedule.
pub open spec fn schedule_sigma0(word: u32) -> u32 {
    rotated(word, 7) ^ rotated(word, 18) ^ (word >> 3)
}

/// The second mixing function of the message schedule.
pub open spec fn schedule_sigma1(word: u32) -> u32 {
    rotated(word, 17) ^ rotated(word, 19) ^ (word >> 10)
}

/// The big-endian word made of the four bytes that start at `offset`.
pub open spec fn word_at(bytes: Seq<u8>, offset: int) -> u32 {
    (bytes[offset] as u32) << 24 | (bytes[offset + 1] as u32) << 16 | (bytes[offset + 2] as u32)
        << 8 | (bytes[offset + 3] as u32)
}

/// The first `count` words of the message schedule of the block at `offset`.
pub open spec fn schedule(bytes: Seq<u8>, offset: int, count: nat) -> Seq<u32>
    decreases count,
{
    if count == 0 {
        Seq::empty()
    } else {
        let before = schedule(bytes, offset, (count - 1) as nat);
        let index = count - 1;
        if index < 16 {
            before.push(word_at(bytes, offset + index * 4))
        } else {
            before.push(
                before[index - 16].wrapping_add(schedule_sigma0(before[index - 15])).wrapping_add(
                    before[index - 7],
                ).wrapping_add(schedule_sigma1(before[index - 2])),
            )
        }
    }
}

/// One round of the compression function.
pub open spec fn round(state: HashState, constant: u32, word: u32) -> HashState {
    let sigma1 = rotated(state.e, 6) ^ rotated(state.e, 11) ^ rotated(state.e, 25);
    let choice = (state.e & state.f) ^ (!state.e & state.g);
    let first = state.h.wrapping_add(sigma1).wrapping_add(choice).wrapping_add(
        constant,
    ).wrapping_add(word);
    let sigma0 = rotated(state.a, 2) ^ rotated(state.a, 13) ^ rotated(state.a, 22);
    let majority = (state.a & state.b) ^ (state.a & state.c) ^ (state.b & state.c);
    HashState {
        a: first.wrapping_add(sigma0.wrapping_add(majority)),
        b: state.a,
        c: state.b,
        d: state.c,
        e: state.d.wrapping_add(first),
        f: state.e,
        g: state.f,
        h: state.g,
    }
}

/// The first `count` rounds over a message schedule.
pub open spec fn rounds(state: HashState, words: Seq<u32>, count: nat) -> HashState
    decreases count,
{
    if count == 0 {
        state
    } else {
        round(
            rounds(state, words, (count - 1) as nat),
            round_constants()[count - 1],
            words[count - 1],
        )
    }
}

/// The word-wise sum of two states.
pub open spec fn state_sum(left: HashState, right: HashState) -> HashState {
    HashState {
        a: left.a.wrapping_add(right.a),
        b: left.b.wrapping_add(right.b),
        c: left.c.wrapping_add(right.c),
        d: left.d.wrapping_add(right.d),
        e: left.e.wrapping_add(right.e),
        f: left.f.wrapping_add(right.f),
        g: left.g.wrapping_add(right.g),
        h: left.h.wrapping_add(right.h),
    }
}

/// The state after the first `count` 64-byte blocks.
pub open spec fn blocks_state(bytes: Seq<u8>, count: nat) -> HashState
    decreases count,
{
    if count == 0 {
        initial_state()
    } else {
        let before = blocks_state(bytes, (count - 1) as nat);
        state_sum(before, rounds(before, schedule(bytes, (count - 1) * 64, 64), 64))
    }
}

/// The number of zero bytes between the marker byte and the length of the message.
pub open spec fn padding_zeros(length: nat) -> nat {
    ((119 - length % 64) % 64) as nat
}

/// The message followed by a marker byte, zeros, and its length in bits.
pub open spec fn padded(message: Seq<u8>) -> Seq<u8> {
    message + seq![0x80u8] + Seq::new(padding_zeros(message.len()), |i: int| 0u8) + text::big_endian(
        (message.len() as u64).wrapping_mul(8),
    )
}

/// The four bytes of a word, most significant first.
pub open spec fn word_bytes(word: u32) -> Seq<u8> {
    seq![(word >> 24) as u8, (word >> 16) as u8, (word >> 8) as u8, word as u8]
}

/// The bytes of the eight words of a state.
pub open spec fn state_bytes(state: HashState) -> Seq<u8> {
    word_bytes(state.a) + word_bytes(state.b) + word_bytes(state.c) + word_bytes(state.d)
        + word_bytes(state.e) + word_bytes(state.f) + word_bytes(state.g) + word_bytes(state.h)
}

/// The SHA-256 digest of a message.
pub open spec fn digest(message: Seq<u8>) -> Seq<u8> {
    state_bytes(blocks_state(padded(message), padded(message).len() / 64))
}

/// A padded message fills a whole number of blocks.
pub proof fn lemma_padded_blocks(message: Seq<u8>)
    ensures
        padded(message).len() == message.len() + 9 + padding_zeros(message.len()),
        padded(message).len() % 64 == 0,
{
}

fn pad(message: &[u8]) -> (bytes: Vec<u8>)
    requires
        message@.len() + 72 <= usize::MAX,
    ensures
        bytes@ == padded(message@),
{
    let mut bytes: Vec<u8> = Vec::new();
    let mut index: usize = 0;
    while index < message.len()
        invariant
            index <= message@.len(),
            bytes@ == message@.take(index as int),
        decreases message.len() - index,
    {
        bytes.push(message[index]);
        index += 1;
    }
    bytes.push(0x80);
    let zeros: usize = (119 - message.len() % 64) % 64;
    let mut count: usize = 0;
    while count < zeros
        invariant
            count <= zeros,
            zeros == padding_zeros(message@.len()),
            bytes@ == message@ + seq![0x80u8] + Seq::new(count as nat, |i: int| 0u8),
        decreases zeros - count,
    {
        bytes.push(0);
        count += 1;
        proof {
            assert(bytes@ == message@ + seq![0x80u8] + Seq::new(count as nat, |i: int| 0u8));
        }
    }
    let bit_length = (message.len() as u64).wrapping_mul(8);
    let mut tail = text::to_big_endian(bit_length);
    bytes.append(&mut tail);
    bytes
}

fn compress(state: HashState, bytes: &Vec<u8>, offset: usize) -> (result: HashState)
    requires
        offset + 64 <= bytes@.len(),
    ensures
        result == state_sum(
            state,
            rounds(state, schedule(bytes@, offset as int, 64), 64),
        ),
{
    let length: usize = bytes.len();
    let mut words: Vec<u32> = Vec::new();
    let mut index: usize = 0;
    while index < 64
        invariant
            index <= 64,
            length == bytes@.len(),
            offset + 64 <= length,
            words@.len() == index,
            words@ == schedule(bytes@, offset as int, index as nat),
        decreases 64 - index,
    {
        let word: u32 = if index < 16 {
            let start: usize = offset + index * 4;
            (bytes[start] as u32) << 24 | (bytes[start + 1] as u32) << 16 | (bytes[start
                + 2] as u32) << 8 | (bytes[start + 3] as u32)
        } else {
            let early: u32 = words[index - 15];
            let late: u32 = words[index - 2];
            let sigma0: u32 = rotate(early, 7) ^ rotate(early, 18) ^ (early >> 3);
            let sigma1: u32 = rotate(late, 17) ^ rotate(late, 19) ^ (late >> 10);
            words[index - 16].wrapping_add(sigma0).wrapping_add(words[index - 7]).wrapping_add(
                sigma1,
            )
        };
        words.push(word);
        index += 1;
    }
    let mut working = state;
    let mut step: usize = 0;
    while step < 64
        invariant
            step <= 64,
            words@.len() == 64,
            working == rounds(state, words@, step as nat),
        decreases 64 - step,
    {
        let sigma1: u32 = rotate(working.e, 6) ^ rotate(working.e, 11) ^ rotate(working.e, 25);
        let choice: u32 = (working.e & working.f) ^ (!working.e & working.g);
        let first: u32 = working.h.wrapping_add(sigma1).wrapping_add(choice).wrapping_add(
            ROUND_CONSTANTS[step],
        ).wrapping_add(words[step]);
        let sigma0: u32 = rotate(working.a, 2) ^ rotate(working.a, 13) ^ rotate(working.a, 22);
        let majority: u32 = (working.a & working.b) ^ (working.a & working.c) ^ (working.b
            & working.c);
        working = HashState {
            a: first.wrapping_add(sigma0.wrapping_add(majority)),
            b: working.a,
            c: working.b,
            d: working.c,
            e: working.d.wrapping_add(first),
            f: working.e,
            g: working.f,
            h: working.g,
        };
        step += 1;
    }
    HashState {
        a: state.a.wrapping_add(working.a),
        b: state.b.wrapping_add(working.b),
        c: state.c.wrapping_add(working.c),
        d: state.d.wrapping_add(working.d),
        e: state.e.wrapping_add(working.e),
        f: state.f.wrapping_add(working.f),
        g: state.g.wrapping_add(working.g),
        h: state.h.wrapping_add(working.h),
    }
}

fn push_word(bytes: &mut Vec<u8>, word: u32)
    ensures
        final(bytes)@ == old(bytes)@ + word_bytes(word),
{
    bytes.push((word >> 24) as u8);
    bytes.push((word >> 16) as u8);
    bytes.push((word >> 8) as u8);
    bytes.push(word as u8);
}

/// Computes the SHA-256 digest of some bytes.
pub fn sha256(bytes: &[u8]) -> (result: Vec<u8>)
    requires
        bytes@.len() + 72 <= usize::MAX,
    ensures
        result@ == digest(bytes@),
        result@.len() == 32,
{
    let padded_bytes = pad(bytes);
    proof {
        lemma_padded_blocks(bytes@);
    }
    let length: usize = padded_bytes.len();
    let blocks: usize = length / 64;
    let mut state = HashState {
        a: 0x6a09e667,
        b: 0xbb67ae85,
        c: 0x3c6ef372,
        d: 0xa54ff53a,
        e: 0x510e527f,
        f: 0x9b05688c,
        g: 0x1f83d9ab,
        h: 0x5be0cd19,
    };
    let mut index: usize = 0;
    while index < blocks
        invariant
            index <= blocks,
            length == padded_bytes@.len(),
            blocks * 64 == length,
            state == blocks_state(padded_bytes@, index as nat),
        decreases blocks - index,
    {
        state = compress(state, &padded_bytes, index * 64);
        index += 1;
    }
    let mut result: Vec<u8> = Vec::new();
    push_word(&mut result, state.a);
    push_word(&mut result, state.b);
    push_word(&mut result, state.c);
    push_word(&mut result, state.d);
    push_word(&mut result, state.e);
    push_word(&mut result, state.f);
    push_word(&mut result, state.g);
    push_word(&mut result, state.h);
    proof {
        assert(result@ == state_bytes(state));
    }
    result
}

/// Computes the SHA-256 digest of some bytes as sixty-four hexadecimal digits.
pub fn sha256_hex(bytes: &[u8]) -> (text: String)
    requires
        bytes@.len() + 72 <= usize::MAX,
    ensures
        text@ == text::hex_text(digest(bytes@)),
        text@.len() == 64,
{
    let result = sha256(bytes);
    proof {
        text::lemma_hex_length(result@);
    }
    text::hex(&result)
}

} // verus!
