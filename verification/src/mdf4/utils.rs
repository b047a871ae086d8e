//! Text fields of MDF version 4 blocks: zero-terminated UTF-8.
use vstd::prelude::*;
use vstd::utf8::{decode_utf8, encode_utf8, valid_utf8};

verus! {

/// The bytes of `b` before its first zero byte (all of `b` if it has none).
pub open spec fn until_nul(b: Seq<u8>) -> Seq<u8>
    decreases b.len(),
{
    if b.len() == 0 {
        b
    } else if b[0] == 0 {
        Seq::empty()
    } else {
        seq![b[0]] + until_nul(b.drop_first())
    }
}

/// If the first zero byte of `b` is at `i` (or `b` has none and `i` is its
/// length), the text before it is `b[0..i]`.
pub proof fn lemma_until_nul(b: Seq<u8>, i: int)
    requires
        0 <= i <= b.len(),
        forall|j: int| 0 <= j < i ==> b[j] != 0,
        i == b.len() || b[i] == 0,
    ensures
        until_nul(b) == b.subrange(0, i),
    decreases i,
{
    if i == 0 {
        assert(b.subrange(0, 0) =~= Seq::<u8>::empty());
        if b.len() == 0 {
            assert(b =~= Seq::<u8>::empty());
        }
    } else {
        let rest = b.drop_first();
        assert forall|j: int| 0 <= j < i - 1 implies rest[j] != 0 by {
            assert(rest[j] == b[j + 1]);
        }
        lemma_until_nul(rest, i - 1);
        assert(b.subrange(0, i) =~= seq![b[0]] + rest.subrange(0, i - 1));
    }
}

/// The text before the first zero byte is a prefix of the bytes.
pub proof fn lemma_until_nul_prefix(b: Seq<u8>)
    ensures
        until_nul(b).len() <= b.len(),
        until_nul(b) == b.subrange(0, until_nul(b).len() as int),
    decreases b.len(),
{
    if b.len() == 0 {
        assert(b.subrange(0, 0) =~= b);
    } else if b[0] == 0 {
        assert(b.subrange(0, 0) =~= Seq::<u8>::empty());
    } else {
        lemma_until_nul_prefix(b.drop_first());
        assert(until_nul(b) =~= b.subrange(0, until_nul(b).len() as int));
    }
}

/// `std::str::from_utf8` on `bytes`, with the text copied into a `String`.
/// Claimed: it succeeds exactly on valid UTF-8, and the text it gives is
/// encoded by exactly these bytes.
#[verifier::external_body]
pub(crate) fn utf8_text(bytes: &[u8]) -> (r: Option<String>)
    ensures
        r is Some <==> valid_utf8(bytes@),
        r matches Some(s) ==> encode_utf8(s@) == bytes@,
{
    match std::str::from_utf8(bytes) {
        Ok(text) => Some(text.to_owned()),
        Err(_) => None,
    }
}

/// Position of the first zero byte of `bytes`, or its length if it has none.
pub fn nul_position(bytes: &[u8]) -> (r: usize)
    ensures
        r <= bytes@.len(),
        until_nul(bytes@) == bytes@.subrange(0, r as int),
{
    let mut i: usize = 0;
    while i < bytes.len() && bytes[i] != 0
        invariant
            i <= bytes@.len(),
            forall|j: int| 0 <= j < i ==> bytes@[j] != 0,
        decreases bytes@.len() - i,
    {
        i = i + 1;
    }
    proof {
        lemma_until_nul(bytes@, i as int);
    }
    i
}

/// Whether the text before the first zero byte of `c_string` is valid UTF-8.
pub fn is_text(c_string: &[u8]) -> (r: bool)
    ensures
        r == valid_utf8(until_nul(c_string@)),
{
    let end = nul_position(c_string);
    let text = vstd::slice::slice_subrange(c_string, 0, end);
    utf8_text(text).is_some()
}

/// The text before the first zero byte of `c_string`.
pub fn str_from_u8(c_string: &[u8]) -> (r: String)
    requires
        valid_utf8(until_nul(c_string@)),
    ensures
        encode_utf8(r@) == until_nul(c_string@),
        r@ == decode_utf8(until_nul(c_string@)),
{
    broadcast use vstd::utf8::encode_utf8_decode_utf8;

    let end = nul_position(c_string);
    let text = vstd::slice::slice_subrange(c_string, 0, end);
    match utf8_text(text) {
        Some(s) => s,
        None => String::new(),
    }
}

} // verus!
