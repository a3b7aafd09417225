//! Text fields.
//!
//! A text is stored as a four-byte little-endian count of the bytes of its
//! UTF-8 form, followed by those bytes. A text whose UTF-8 form is longer
//! than `u32::MAX` bytes has no stored form. Both directions are carried out
//! by the `borsh` crate; the two functions that call it are the only ones in
//! this module whose contracts are taken on trust.

use vstd::prelude::*;
use vstd::slice::slice_subrange;
use vstd::utf8::{decode_utf8, encode_utf8, valid_utf8};
use vstd::utf8::{decode_utf8_encode_utf8, encode_utf8_decode_utf8, encode_utf8_valid_utf8};
use crate::wire::{le_bytes, le_value, take_word};
use crate::wire::{lemma_le_bytes_len, lemma_le_bytes_of_value, lemma_le_value_of_bytes};
use crate::wire::lemma_word_limits;

verus! {

/// Whether the UTF-8 form of `text` is short enough for its count to fit in
/// four bytes.
pub open spec fn text_fits(text: Seq<char>) -> bool {
    encode_utf8(text).len() <= u32::MAX
}

/// The stored form of `text`: the count of its UTF-8 bytes, then the bytes.
pub open spec fn text_bytes(text: Seq<char>) -> Seq<u8> {
    le_bytes(encode_utf8(text).len(), 4) + encode_utf8(text)
}

/// Whether `bytes` is, from its first byte to its last, the stored form of
/// some text: a four-byte count, then exactly that many bytes of valid UTF-8.
pub open spec fn is_text_bytes(bytes: Seq<u8>) -> bool {
    &&& bytes.len() >= 4
    &&& le_value(bytes.subrange(0, 4)) == bytes.len() - 4
    &&& valid_utf8(bytes.skip(4))
}

/// Reads the text stored in `bytes` from offset `at` on: the text and the
/// offset just past it, or `None` where the count or its bytes are cut short
/// or the bytes are not valid UTF-8.
pub open spec fn read_text(bytes: Seq<u8>, at: int) -> Option<(Seq<char>, int)> {
    if 0 <= at && at + 4 <= bytes.len() {
        let end = at + 4 + le_value(bytes.subrange(at, at + 4));
        if end <= bytes.len() && valid_utf8(bytes.subrange(at + 4, end)) {
            Some((decode_utf8(bytes.subrange(at + 4, end)), end))
        } else {
            None
        }
    } else {
        None
    }
}

/// The stored form of a text is its count followed by its UTF-8 bytes, so it
/// is four bytes longer than the UTF-8 form and passes `is_text_bytes`.
pub proof fn lemma_text_bytes(text: Seq<char>)
    requires
        text_fits(text),
    ensures
        text_bytes(text).len() == 4 + encode_utf8(text).len(),
        text_bytes(text).subrange(0, 4) == le_bytes(encode_utf8(text).len(), 4),
        text_bytes(text).skip(4) == encode_utf8(text),
        is_text_bytes(text_bytes(text)),
{
    let payload = encode_utf8(text);
    lemma_le_bytes_len(payload.len(), 4);
    lemma_word_limits();
    lemma_le_value_of_bytes(payload.len(), 4);
    encode_utf8_valid_utf8(text);
    assert(text_bytes(text).skip(4) =~= payload);
}

/// A text that was written at `at` is read back from there.
pub proof fn lemma_read_text_written(bytes: Seq<u8>, at: int, text: Seq<char>)
    requires
        text_fits(text),
        0 <= at,
        at + text_bytes(text).len() <= bytes.len(),
        bytes.subrange(at, at + text_bytes(text).len()) == text_bytes(text),
    ensures
        read_text(bytes, at) == Some((text, at + text_bytes(text).len())),
{
    lemma_text_bytes(text);
    let stored = text_bytes(text);
    let end = at + stored.len();
    assert(bytes.subrange(at, at + 4) =~= stored.subrange(0, 4));
    assert(bytes.subrange(at + 4, end) =~= stored.skip(4));
    encode_utf8_decode_utf8(text);
}

/// What `read_text` yields is a text that fits, and the bytes it passed over
/// are the stored form of that text.
pub proof fn lemma_read_text_sound(bytes: Seq<u8>, at: int)
    requires
        read_text(bytes, at) is Some,
    ensures
        text_fits(read_text(bytes, at).unwrap().0),
        at + 4 <= read_text(bytes, at).unwrap().1 <= bytes.len(),
        bytes.subrange(at, read_text(bytes, at).unwrap().1) == text_bytes(
            read_text(bytes, at).unwrap().0,
        ),
{
    let (text, end) = read_text(bytes, at).unwrap();
    let count = bytes.subrange(at, at + 4);
    let payload = bytes.subrange(at + 4, end);
    decode_utf8_encode_utf8(payload);
    lemma_le_bytes_of_value(count);
    lemma_word_limits();
    assert(bytes.subrange(at, end) =~= count + payload);
}

/// The stored form of `text` as `borsh::to_vec` gives it for a `String`, or
/// `None` where it reports an error.
///
/// Taken on trust: `borsh` writes a `String` as the length of its UTF-8 bytes
/// in a little-endian `u32` followed by the bytes, and reports an error, without
/// panicking, exactly when that length does not fit in a `u32`.
#[verifier::external_body]
pub(crate) fn borsh_text(text: &String) -> (out: Option<Vec<u8>>)
    ensures
        out is Some <==> text_fits(text@),
        out is Some ==> out.unwrap()@ == text_bytes(text@),
{
    borsh::to_vec(text).ok()
}

/// The text whose stored form is the whole of `bytes`, as `borsh::from_slice`
/// gives it for a `String`, or `None` where it reports an error.
///
/// Taken on trust: `borsh` reads a little-endian `u32` count, then that many
/// bytes, turns them into a `String` that holds exactly those bytes, and
/// reports an error, without panicking, where the input ends too early, where
/// the bytes are not valid UTF-8, and where bytes are left over.
#[verifier::external_body]
pub(crate) fn borsh_text_from(bytes: &[u8]) -> (out: Option<String>)
    ensures
        out is Some <==> is_text_bytes(bytes@),
        out is Some ==> text_bytes(out.unwrap()@) == bytes@,
{
    borsh::from_slice::<String>(bytes).ok()
}

/// Appends the stored form of `text` to `out`, and says whether it has one;
/// where it has none, `out` is left as it was.
pub(crate) fn put_text(out: &mut Vec<u8>, text: &String) -> (fits: bool)
    ensures
        fits == text_fits(text@),
        fits ==> final(out)@ == old(out)@ + text_bytes(text@),
        !fits ==> final(out)@ == old(out)@,
{
    match borsh_text(text) {
        Some(stored) => {
            out.extend_from_slice(stored.as_slice());
            true
        },
        None => false,
    }
}

/// Reads the text stored in `bytes` from offset `at` on, as `read_text` says.
pub(crate) fn take_text(bytes: &[u8], at: usize) -> (out: Option<(String, usize)>)
    requires
        at <= bytes@.len(),
    ensures
        match out {
            Some((text, next)) => read_text(bytes@, at as int) == Some((text@, next as int)),
            None => read_text(bytes@, at as int) is None,
        },
{
    let total: usize = bytes.len();
    if total - at < 4 {
        return None;
    }
    let count: u64 = take_word(bytes, at, 4);
    if count > (total - at - 4) as u64 {
        return None;
    }
    let end: usize = at + 4 + count as usize;
    let field = slice_subrange(bytes, at, end);
    proof {
        assert(field@.subrange(0, 4) =~= bytes@.subrange(at as int, at + 4));
        assert(field@.skip(4) =~= bytes@.subrange(at + 4, end as int));
    }
    match borsh_text_from(field) {
        Some(text) => {
            proof {
                lemma_text_bytes_fit(text@, field@);
                lemma_text_bytes(text@);
                encode_utf8_decode_utf8(text@);
            }
            Some((text, end))
        },
        None => None,
    }
}

/// A text whose stored form is known to be some byte sequence of at least
/// four bytes, with a true count in front, fits.
proof fn lemma_text_bytes_fit(text: Seq<char>, bytes: Seq<u8>)
    requires
        text_bytes(text) == bytes,
        is_text_bytes(bytes),
    ensures
        text_fits(text),
{
    let payload = encode_utf8(text);
    lemma_le_bytes_len(payload.len(), 4);
    lemma_le_bytes_of_value(bytes.subrange(0, 4));
    lemma_word_limits();
}

} // verus!
