//! The bytes that a write sends to the shell.

use crate::decoder::{carried, decoded_text};
use crate::stream_laws::lemma_valid_text_decodes_whole;
use vstd::prelude::*;
use vstd::utf8::*;

verus! {

/// The bytes that stand for `text` on the terminal: its UTF-8 encoding.
pub fn input_bytes(text: &str) -> (bytes: Vec<u8>)
    ensures
        bytes@ == encode_utf8(text@),
{
    text.as_bytes_vec()
}

/// Writes made one after the other send the bytes of the joined text: the
/// bytes of the first, then the bytes of the second.
pub proof fn lemma_writes_in_order(first: Seq<char>, second: Seq<char>)
    ensures
        encode_utf8(first) + encode_utf8(second) == encode_utf8(first + second),
    decreases first.len(),
{
    if first.len() == 0 {
        assert(first + second =~= second);
        assert(encode_utf8(first) + encode_utf8(second) =~= encode_utf8(second));
    } else {
        lemma_writes_in_order(first.drop_first(), second);
        assert((first + second).drop_first() =~= first.drop_first() + second);
        assert(encode_utf8(first) + encode_utf8(second) =~= encode_utf8(first + second));
    }
}

/// Text that is sent and comes back unchanged decodes to itself, with
/// nothing held back.
pub proof fn lemma_echo_decodes_to_text(text: Seq<char>)
    ensures
        decoded_text(encode_utf8(text)) == text,
        carried(encode_utf8(text)) == Seq::<u8>::empty(),
{
    encode_utf8_valid_utf8(text);
    encode_utf8_decode_utf8(text);
    lemma_valid_text_decodes_whole(encode_utf8(text));
}

} // verus!
