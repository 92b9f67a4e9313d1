//! What holds of the decoder whatever the bytes are and wherever the
//! stream is cut.

use crate::decoder::{carried, decoded_text};
use crate::utf8::{
    could_complete, ill_formed_len, is_valid_up_to, lemma_could_complete_is_short,
    lemma_could_complete_ranges, lemma_first_scalar_ranges,
};
use vstd::prelude::*;
use vstd::utf8::*;

verus! {

/// A well-formed first scalar stays the first scalar when bytes follow.
pub proof fn lemma_first_scalar_extends(a: Seq<u8>, b: Seq<u8>)
    requires
        valid_first_scalar(a),
    ensures
        valid_first_scalar(a + b),
        decode_first_scalar(a + b) == decode_first_scalar(a),
        length_of_first_scalar(a + b) == length_of_first_scalar(a),
        pop_first_scalar(a + b) == pop_first_scalar(a) + b,
{
    assert(pop_first_scalar(a + b) =~= pop_first_scalar(a) + b);
}

/// After a well-formed prefix, decoding goes on with what follows it.
pub proof fn lemma_decoded_after_valid(a: Seq<u8>, b: Seq<u8>)
    requires
        valid_utf8(a),
    ensures
        decoded_text(a + b) == decode_utf8(a) + decoded_text(b),
        carried(a + b) == carried(b),
    decreases a.len(),
{
    if a.len() == 0 {
        assert(a + b =~= b);
        assert(decode_utf8(a) + decoded_text(b) =~= decoded_text(b));
    } else {
        lemma_first_scalar_extends(a, b);
        lemma_decoded_after_valid(pop_first_scalar(a), b);
        assert(decoded_text(a + b) =~= decode_utf8(a) + decoded_text(b));
    }
}

/// In a buffer that is not well-formed, the longest well-formed prefix ends
/// before the end, and no well-formed scalar starts there.
pub proof fn lemma_fault_is_not_scalar(bytes: Seq<u8>, k: int)
    requires
        is_valid_up_to(bytes, k),
        !valid_utf8(bytes),
    ensures
        k < bytes.len(),
        !valid_first_scalar(bytes.skip(k)),
{
    let rest = bytes.skip(k);
    assert(bytes.take(bytes.len() as int) =~= bytes);
    if valid_first_scalar(rest) {
        partial_valid_utf8_extend(bytes, k);
        let j = k + length_of_first_scalar(rest);
        assert(valid_utf8(bytes.take(j)));
    }
}

/// An ill-formed sequence at the start of a buffer is ill-formed whatever
/// follows it, and of the same length.
pub proof fn lemma_ill_formed_extends(a: Seq<u8>, b: Seq<u8>)
    requires
        a.len() > 0,
        !valid_first_scalar(a),
        !could_complete(a),
    ensures
        !valid_first_scalar(a + b),
        !could_complete(a + b),
        ill_formed_len(a + b) == ill_formed_len(a),
        1 <= ill_formed_len(a) <= a.len(),
        (a + b).skip(ill_formed_len(a)) == a.skip(ill_formed_len(a)) + b,
{
    let whole = a + b;
    lemma_first_scalar_ranges(a);
    lemma_first_scalar_ranges(whole);
    lemma_could_complete_ranges(a);
    lemma_could_complete_ranges(whole);
    if a.len() >= 2 {
        lemma_could_complete_ranges(a.take(2));
    }
    if a.len() >= 3 {
        lemma_could_complete_ranges(a.take(3));
    }
    if whole.len() >= 2 {
        lemma_could_complete_ranges(whole.take(2));
    }
    if whole.len() >= 3 {
        lemma_could_complete_ranges(whole.take(3));
    }
    assert(whole.skip(ill_formed_len(a)) =~= a.skip(ill_formed_len(a)) + b);
}

/// Chunk boundaries do not matter: decoding a buffer in one call gives the
/// text of decoding its first part, followed by the text of decoding what
/// the first part held back together with the second part, and the same
/// bytes are held back at the end.
pub proof fn lemma_chunks_decode_alike(a: Seq<u8>, b: Seq<u8>)
    ensures
        decoded_text(a + b) == decoded_text(a) + decoded_text(carried(a) + b),
        carried(a + b) == carried(carried(a) + b),
    decreases a.len(),
{
    if a.len() == 0 {
        assert(decoded_text(a) + decoded_text(a + b) =~= decoded_text(a + b));
    } else if valid_first_scalar(a) {
        lemma_first_scalar_extends(a, b);
        lemma_chunks_decode_alike(pop_first_scalar(a), b);
        assert(decoded_text(a + b) =~= decoded_text(a) + decoded_text(carried(a) + b));
    } else if could_complete(a) {
        assert(Seq::<char>::empty() + decoded_text(a + b) =~= decoded_text(a + b));
    } else {
        lemma_ill_formed_extends(a, b);
        lemma_chunks_decode_alike(a.skip(ill_formed_len(a)), b);
        assert(decoded_text(a + b) =~= decoded_text(a) + decoded_text(carried(a) + b));
    }
}

/// Well-formed text is decoded as it stands, and nothing is held back.
pub proof fn lemma_valid_text_decodes_whole(bytes: Seq<u8>)
    requires
        valid_utf8(bytes),
    ensures
        decoded_text(bytes) == decode_utf8(bytes),
        carried(bytes) == Seq::<u8>::empty(),
{
    lemma_decoded_after_valid(bytes, Seq::empty());
    assert(bytes + Seq::<u8>::empty() =~= bytes);
    assert(decode_utf8(bytes) + Seq::<char>::empty() =~= decode_utf8(bytes));
}

/// Well-formed text that arrives in two chunks, cut at any byte, decodes to
/// the same text as in one piece: the first call holds back the bytes of a
/// scalar that the cut went through, and the second call decodes them with
/// the rest. No replacement character comes of the cut.
pub proof fn lemma_split_decoding(first: Seq<u8>, second: Seq<u8>)
    requires
        valid_utf8(first + second),
    ensures
        decoded_text(first) + decoded_text(carried(first) + second) == decode_utf8(first + second),
        carried(carried(first) + second) == Seq::<u8>::empty(),
{
    lemma_chunks_decode_alike(first, second);
    lemma_valid_text_decodes_whole(first + second);
}

/// What is held back is empty or the start of one scalar that later bytes
/// could complete: at most three bytes, never a sequence known to be
/// ill-formed.
pub proof fn lemma_carried_is_incomplete(bytes: Seq<u8>)
    ensures
        carried(bytes).len() == 0 || could_complete(carried(bytes)),
        carried(bytes).len() <= 3,
    decreases bytes.len(),
{
    if bytes.len() == 0 {
    } else if valid_first_scalar(bytes) {
        lemma_carried_is_incomplete(pop_first_scalar(bytes));
    } else if could_complete(bytes) {
        lemma_could_complete_is_short(bytes);
    } else {
        lemma_ill_formed_extends(bytes, Seq::empty());
        lemma_carried_is_incomplete(bytes.skip(ill_formed_len(bytes)));
    }
}

/// Decoding what was held back, with nothing new, yields no text and holds
/// the same bytes back.
pub proof fn lemma_carried_is_stable(bytes: Seq<u8>)
    ensures
        decoded_text(carried(bytes)) == Seq::<char>::empty(),
        carried(carried(bytes)) == carried(bytes),
{
    lemma_carried_is_incomplete(bytes);
    if carried(bytes).len() > 0 {
        lemma_could_complete_is_short(carried(bytes));
    }
}

/// Bytes that could still be completed yield no text and are held back
/// whole.
pub proof fn lemma_held_back_decodes_to_nothing(bytes: Seq<u8>)
    requires
        bytes.len() == 0 || could_complete(bytes),
    ensures
        decoded_text(bytes) == Seq::<char>::empty(),
        carried(bytes) == bytes,
{
    if bytes.len() > 0 {
        lemma_could_complete_is_short(bytes);
    }
}

} // verus!
