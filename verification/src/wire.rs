//! Byte layout of the fixed-size fields: little-endian words, signed
//! timestamps, identities and optional identities.
//!
//! Every multi-byte number is stored least significant byte first. A reader
//! works on a byte sequence and an offset and yields the value together with
//! the offset just past it.

use vstd::prelude::*;
use crate::identity::{key_of, lemma_key_of, Pubkey};

verus! {

/// The `width` low-order bytes of `value`, least significant first.
pub open spec fn le_bytes(value: nat, width: nat) -> Seq<u8>
    decreases width,
{
    if width == 0 {
        Seq::empty()
    } else {
        seq![(value % 256) as u8] + le_bytes(value / 256, (width - 1) as nat)
    }
}

/// The number that `bytes` spell, least significant byte first.
pub open spec fn le_value(bytes: Seq<u8>) -> nat
    decreases bytes.len(),
{
    if bytes.len() == 0 {
        0
    } else {
        bytes[0] as nat + 256 * le_value(bytes.drop_first())
    }
}

/// One more than the largest number that `width` bytes can spell.
pub open spec fn word_limit(width: nat) -> nat
    decreases width,
{
    if width == 0 {
        1
    } else {
        256 * word_limit((width - 1) as nat)
    }
}

/// `le_bytes` always yields exactly `width` bytes.
pub proof fn lemma_le_bytes_len(value: nat, width: nat)
    ensures
        le_bytes(value, width).len() == width,
    decreases width,
{
    if width > 0 {
        lemma_le_bytes_len(value / 256, (width - 1) as nat);
    }
}

/// A number that fits in `width` bytes is read back from its bytes.
pub proof fn lemma_le_value_of_bytes(value: nat, width: nat)
    requires
        value < word_limit(width),
    ensures
        le_value(le_bytes(value, width)) == value,
    decreases width,
{
    if width > 0 {
        let rest = le_bytes(value / 256, (width - 1) as nat);
        let all = le_bytes(value, width);
        lemma_le_bytes_len(value / 256, (width - 1) as nat);
        lemma_le_value_of_bytes(value / 256, (width - 1) as nat);
        assert(all.drop_first() =~= rest);
    }
}

/// Bytes are written back from the number they spell, and that number fits.
pub proof fn lemma_le_bytes_of_value(bytes: Seq<u8>)
    ensures
        le_value(bytes) < word_limit(bytes.len()),
        le_bytes(le_value(bytes), bytes.len()) == bytes,
    decreases bytes.len(),
{
    if bytes.len() > 0 {
        lemma_le_bytes_of_value(bytes.drop_first());
    }
}

/// The limits of the two word sizes in use: four and eight bytes.
pub proof fn lemma_word_limits()
    ensures
        word_limit(4) == 0x1_0000_0000,
        word_limit(8) == 0x1_0000_0000_0000_0000,
{
    reveal_with_fuel(word_limit, 9);
}

/// A smaller width has a smaller limit.
pub proof fn lemma_word_limit_grows(narrow: nat, wide: nat)
    requires
        narrow <= wide,
    ensures
        1 <= word_limit(narrow) <= word_limit(wide),
    decreases wide,
{
    if narrow < wide {
        lemma_word_limit_grows(narrow, (wide - 1) as nat);
    } else if wide > 0 {
        lemma_word_limit_grows((narrow - 1) as nat, (wide - 1) as nat);
    }
}

/// Appends the `width` low-order bytes of `value` to `out`.
pub(crate) fn put_word(out: &mut Vec<u8>, value: u64, width: usize)
    ensures
        final(out)@ == old(out)@ + le_bytes(value as nat, width as nat),
{
    let ghost before = out@;
    let mut rest: u64 = value;
    let mut done: usize = 0;
    while done < width
        invariant
            done <= width,
            out@ + le_bytes(rest as nat, (width - done) as nat) == before + le_bytes(
                value as nat,
                width as nat,
            ),
        decreases width - done,
    {
        out.push((rest % 256) as u8);
        rest = rest / 256;
        done += 1;
    }
}

/// Reads the number spelt by the `width` bytes of `bytes` that start at `at`.
pub(crate) fn take_word(bytes: &[u8], at: usize, width: usize) -> (value: u64)
    requires
        width <= 8,
        at + width <= bytes@.len(),
    ensures
        value == le_value(bytes@.subrange(at as int, at + width)),
{
    let total: usize = bytes.len();
    let mut value: u64 = 0;
    let mut left: usize = width;
    while left > 0
        invariant
            left <= width <= 8,
            at + width <= total == bytes@.len(),
            value == le_value(bytes@.subrange(at + left, at + width)),
            value < word_limit((width - left) as nat),
        decreases left,
    {
        proof {
            lemma_word_limit_grows((width - left) as nat, 7);
            reveal_with_fuel(word_limit, 8);
            let longer = bytes@.subrange(at + left - 1, at + width);
            assert(longer.drop_first() =~= bytes@.subrange(at + left, at + width));
        }
        left -= 1;
        value = value * 256 + bytes[at + left] as u64;
    }
    value
}

/// The unsigned 64-bit word that stands for a signed timestamp: the value
/// itself where it is not negative, and 2^64 more than it where it is.
pub open spec fn i64_word(t: i64) -> nat {
    if t >= 0 {
        t as nat
    } else {
        (t + 0x1_0000_0000_0000_0000) as nat
    }
}

/// The signed timestamp that an unsigned 64-bit word stands for.
pub open spec fn word_i64(word: nat) -> i64 {
    if word < 0x8000_0000_0000_0000 {
        word as i64
    } else {
        (word - 0x1_0000_0000_0000_0000) as i64
    }
}

/// Computes `i64_word`.
pub(crate) fn i64_to_word(t: i64) -> (word: u64)
    ensures
        word == i64_word(t),
        word_i64(word as nat) == t,
{
    if t >= 0 {
        t as u64
    } else {
        let lifted: i64 = (t + 1) + i64::MAX;
        lifted as u64 + 0x8000_0000_0000_0000u64
    }
}

/// Computes `word_i64`.
pub(crate) fn word_to_i64(word: u64) -> (t: i64)
    ensures
        t == word_i64(word as nat),
        i64_word(t) == word,
{
    if word < 0x8000_0000_0000_0000u64 {
        word as i64
    } else {
        let lowered: u64 = word - 0x8000_0000_0000_0000u64;
        (lowered as i64 - i64::MAX) - 1
    }
}

/// Reads the identity stored in the 32 bytes of `bytes` that start at `at`.
pub open spec fn read_key(bytes: Seq<u8>, at: int) -> Option<(Pubkey, int)> {
    if 0 <= at && at + 32 <= bytes.len() {
        Some((key_of(bytes.subrange(at, at + 32)), at + 32))
    } else {
        None
    }
}

/// The stored form of an optional identity: a single 0 for none, or a 1
/// followed by the 32 bytes of the identity.
pub open spec fn opt_key_bytes(key: Option<Pubkey>) -> Seq<u8> {
    match key {
        None => seq![0u8],
        Some(key) => seq![1u8] + key@,
    }
}

/// Reads the optional identity stored in `bytes` from offset `at` on. A
/// presence byte other than 0 or 1 is refused.
pub open spec fn read_opt_key(bytes: Seq<u8>, at: int) -> Option<(Option<Pubkey>, int)> {
    if 0 <= at < bytes.len() {
        if bytes[at] == 0 {
            Some((None, at + 1))
        } else if bytes[at] == 1 {
            match read_key(bytes, at + 1) {
                Some((key, end)) => Some((Some(key), end)),
                None => None,
            }
        } else {
            None
        }
    } else {
        None
    }
}

/// Reads the signed timestamp stored in the 8 bytes of `bytes` that start at
/// `at`.
pub open spec fn read_time(bytes: Seq<u8>, at: int) -> Option<(i64, int)> {
    if 0 <= at && at + 8 <= bytes.len() {
        Some((word_i64(le_value(bytes.subrange(at, at + 8))), at + 8))
    } else {
        None
    }
}

/// The stored form of a signed timestamp: its 64-bit word, low byte first.
pub open spec fn time_bytes(t: i64) -> Seq<u8> {
    le_bytes(i64_word(t), 8)
}

/// An identity that was written at `at` is read back from there.
pub proof fn lemma_read_key_written(bytes: Seq<u8>, at: int, key: Pubkey)
    requires
        0 <= at,
        at + 32 <= bytes.len(),
        bytes.subrange(at, at + 32) == key@,
    ensures
        read_key(bytes, at) == Some((key, at + 32)),
{
    lemma_key_of(key@);
}

/// The bytes that `read_key` passed over are those of the identity it yields.
pub proof fn lemma_read_key_sound(bytes: Seq<u8>, at: int)
    requires
        read_key(bytes, at) is Some,
    ensures
        read_key(bytes, at).unwrap().1 == at + 32 <= bytes.len(),
        bytes.subrange(at, at + 32) == read_key(bytes, at).unwrap().0@,
{
    lemma_key_of(bytes.subrange(at, at + 32));
}

/// An optional identity that was written at `at` is read back from there.
pub proof fn lemma_read_opt_key_written(bytes: Seq<u8>, at: int, key: Option<Pubkey>)
    requires
        0 <= at,
        at + opt_key_bytes(key).len() <= bytes.len(),
        bytes.subrange(at, at + opt_key_bytes(key).len()) == opt_key_bytes(key),
    ensures
        read_opt_key(bytes, at) == Some((key, at + opt_key_bytes(key).len())),
{
    let stored = opt_key_bytes(key);
    assert(bytes[at] == stored[0]);
    match key {
        None => {},
        Some(inner) => {
            assert(bytes.subrange(at + 1, at + 33) =~= stored.skip(1));
            assert(stored.skip(1) =~= inner@);
            lemma_read_key_written(bytes, at + 1, inner);
        },
    }
}

/// The bytes that `read_opt_key` passed over are the stored form of the
/// optional identity it yields.
pub proof fn lemma_read_opt_key_sound(bytes: Seq<u8>, at: int)
    requires
        read_opt_key(bytes, at) is Some,
    ensures
        at < read_opt_key(bytes, at).unwrap().1 <= bytes.len(),
        bytes.subrange(at, read_opt_key(bytes, at).unwrap().1) == opt_key_bytes(
            read_opt_key(bytes, at).unwrap().0,
        ),
{
    if bytes[at] == 1 {
        lemma_read_key_sound(bytes, at + 1);
    }
}

/// A timestamp that was written at `at` is read back from there.
pub proof fn lemma_read_time_written(bytes: Seq<u8>, at: int, t: i64)
    requires
        0 <= at,
        at + 8 <= bytes.len(),
        bytes.subrange(at, at + 8) == time_bytes(t),
    ensures
        read_time(bytes, at) == Some((t, at + 8)),
{
    lemma_word_limits();
    lemma_le_value_of_bytes(i64_word(t), 8);
}

/// The bytes that `read_time` passed over are the stored form of the
/// timestamp it yields.
pub proof fn lemma_read_time_sound(bytes: Seq<u8>, at: int)
    requires
        read_time(bytes, at) is Some,
    ensures
        read_time(bytes, at).unwrap().1 == at + 8 <= bytes.len(),
        bytes.subrange(at, at + 8) == time_bytes(read_time(bytes, at).unwrap().0),
{
    lemma_word_limits();
    lemma_le_bytes_of_value(bytes.subrange(at, at + 8));
}

/// Appends the 32 bytes of `key` to `out`.
pub(crate) fn put_key(out: &mut Vec<u8>, key: &Pubkey)
    ensures
        final(out)@ == old(out)@ + key@,
{
    out.extend_from_slice(key.0.as_slice());
}

/// Reads the identity stored in `bytes` at `at`, as `read_key` says.
pub(crate) fn take_key(bytes: &[u8], at: usize) -> (out: Option<(Pubkey, usize)>)
    requires
        at <= bytes@.len(),
    ensures
        match out {
            Some((key, next)) => read_key(bytes@, at as int) == Some((key, next as int)),
            None => read_key(bytes@, at as int) is None,
        },
{
    let total: usize = bytes.len();
    if total - at < 32 {
        return None;
    }
    let mut raw: [u8; 32] = [0u8; 32];
    let mut i: usize = 0;
    while i < 32
        invariant
            i <= 32,
            at + 32 <= total == bytes@.len(),
            forall|j: int| 0 <= j < i ==> raw@[j] == bytes@[at + j],
        decreases 32 - i,
    {
        raw[i] = bytes[at + i];
        i += 1;
    }
    let key = Pubkey(raw);
    proof {
        assert(key@ =~= bytes@.subrange(at as int, at + 32));
        lemma_read_key_written(bytes@, at as int, key);
    }
    Some((key, at + 32))
}

/// Appends the stored form of an optional identity to `out`.
pub(crate) fn put_opt_key(out: &mut Vec<u8>, key: &Option<Pubkey>)
    ensures
        final(out)@ == old(out)@ + opt_key_bytes(*key),
{
    match key {
        None => {
            out.push(0u8);
        },
        Some(inner) => {
            out.push(1u8);
            put_key(out, inner);
        },
    }
}

/// Reads the optional identity stored in `bytes` at `at`, as `read_opt_key`
/// says.
pub(crate) fn take_opt_key(bytes: &[u8], at: usize) -> (out: Option<(Option<Pubkey>, usize)>)
    requires
        at <= bytes@.len(),
    ensures
        match out {
            Some((key, next)) => read_opt_key(bytes@, at as int) == Some((key, next as int)),
            None => read_opt_key(bytes@, at as int) is None,
        },
{
    if at >= bytes.len() {
        return None;
    }
    let flag: u8 = bytes[at];
    if flag == 0 {
        Some((None, at + 1))
    } else if flag == 1 {
        match take_key(bytes, at + 1) {
            Some((key, next)) => Some((Some(key), next)),
            None => None,
        }
    } else {
        None
    }
}

/// Appends the stored form of a timestamp to `out`.
pub(crate) fn put_time(out: &mut Vec<u8>, t: i64)
    ensures
        final(out)@ == old(out)@ + time_bytes(t),
{
    put_word(out, i64_to_word(t), 8);
}

/// Reads the timestamp stored in `bytes` at `at`, as `read_time` says.
pub(crate) fn take_time(bytes: &[u8], at: usize) -> (out: Option<(i64, usize)>)
    requires
        at <= bytes@.len(),
    ensures
        match out {
            Some((t, next)) => read_time(bytes@, at as int) == Some((t, next as int)),
            None => read_time(bytes@, at as int) is None,
        },
{
    if bytes.len() - at < 8 {
        return None;
    }
    let word: u64 = take_word(bytes, at, 8);
    Some((word_to_i64(word), at + 8))
}

} // verus!
