//! Vocabulary for the place where a byte buffer stops being well-formed
//! UTF-8, and the validator that finds that place.

use vstd::prelude::*;
use vstd::utf8::*;

verus! {

/// True when `bytes` is a non-empty proper prefix of the UTF-8 encoding of
/// some scalar value: bytes that arrive later could still complete it.
pub open spec fn could_complete(bytes: Seq<u8>) -> bool {
    exists|more: Seq<u8>|
        #[trigger] valid_first_scalar(bytes + more) && 0 < bytes.len() < length_of_first_scalar(
            bytes + more,
        )
}

/// The number of bytes that one replacement character stands for when
/// `rest` starts with an ill-formed sequence: the longest prefix of `rest`
/// that could still have been completed, and at least the first byte.
pub open spec fn ill_formed_len(rest: Seq<u8>) -> int {
    if rest.len() >= 3 && could_complete(rest.take(3)) {
        3
    } else if rest.len() >= 2 && could_complete(rest.take(2)) {
        2
    } else {
        1
    }
}

/// True when `second` may follow the leading byte `first` of a three- or
/// four-byte encoding: a continuation byte, within the narrower range that
/// the leading bytes `E0`, `ED`, `F0` and `F4` allow.
pub open spec fn second_byte_fits(first: u8, second: u8) -> bool {
    if first == 0xE0 {
        0xA0 <= second <= 0xBF
    } else if first == 0xED {
        0x80 <= second <= 0x9F
    } else if first == 0xF0 {
        0x90 <= second <= 0xBF
    } else if first == 0xF4 {
        0x80 <= second <= 0x8F
    } else {
        0xE1 <= first <= 0xF3 && 0x80 <= second <= 0xBF
    }
}

/// The byte ranges of the proper prefixes of well-formed encodings: one to
/// three bytes, read off the first bytes alone.
pub open spec fn is_scalar_prefix(bytes: Seq<u8>) -> bool {
    ||| bytes.len() == 1 && 0xC2 <= bytes[0] <= 0xF4
    ||| bytes.len() == 2 && 0xE0 <= bytes[0] <= 0xF4 && second_byte_fits(bytes[0], bytes[1])
    ||| bytes.len() == 3 && 0xF0 <= bytes[0] <= 0xF4 && second_byte_fits(bytes[0], bytes[1])
        && is_continuation_byte(bytes[2])
}

proof fn lemma_one_byte_range(b0: u8)
    by (bit_vector)
    ensures
        not_surrogate(codepoint_width_1(b0)),
{
}

proof fn lemma_two_byte_range(b0: u8, b1: u8)
    by (bit_vector)
    requires
        is_leading_byte_width_2(b0),
        is_continuation_byte(b1),
    ensures
        not_overlong_encoding(codepoint_width_2(b0, b1), 2) <==> 0xC2 <= b0,
        not_surrogate(codepoint_width_2(b0, b1)),
{
}

proof fn lemma_three_byte_range(b0: u8, b1: u8, b2: u8)
    by (bit_vector)
    requires
        is_leading_byte_width_3(b0),
        is_continuation_byte(b1),
        is_continuation_byte(b2),
    ensures
        not_overlong_encoding(codepoint_width_3(b0, b1, b2), 3) && not_surrogate(
            codepoint_width_3(b0, b1, b2),
        ) <==> second_byte_fits(b0, b1),
{
}

proof fn lemma_four_byte_range(b0: u8, b1: u8, b2: u8, b3: u8)
    by (bit_vector)
    requires
        is_leading_byte_width_4(b0),
        is_continuation_byte(b1),
        is_continuation_byte(b2),
        is_continuation_byte(b3),
    ensures
        not_overlong_encoding(codepoint_width_4(b0, b1, b2, b3), 4) && not_surrogate(
            codepoint_width_4(b0, b1, b2, b3),
        ) <==> b0 <= 0xF4 && second_byte_fits(b0, b1),
{
}

/// A buffer starts with a well-formed scalar exactly when its first bytes
/// lie in the ranges of the table of well-formed byte sequences.
pub proof fn lemma_first_scalar_ranges(bytes: Seq<u8>)
    ensures
        valid_first_scalar(bytes) <==> {
            ||| bytes.len() >= 1 && bytes[0] <= 0x7F
            ||| bytes.len() >= 2 && 0xC2 <= bytes[0] <= 0xDF && is_continuation_byte(bytes[1])
            ||| bytes.len() >= 3 && 0xE0 <= bytes[0] <= 0xEF && second_byte_fits(
                bytes[0],
                bytes[1],
            ) && is_continuation_byte(bytes[2])
            ||| bytes.len() >= 4 && 0xF0 <= bytes[0] <= 0xF4 && second_byte_fits(
                bytes[0],
                bytes[1],
            ) && is_continuation_byte(bytes[2]) && is_continuation_byte(bytes[3])
        },
{
    if bytes.len() >= 1 {
        lemma_one_byte_range(bytes[0]);
    }
    if bytes.len() >= 2 && is_leading_byte_width_2(bytes[0]) && is_continuation_byte(bytes[1]) {
        lemma_two_byte_range(bytes[0], bytes[1]);
    }
    if bytes.len() >= 3 && is_leading_byte_width_3(bytes[0]) && is_continuation_byte(bytes[1])
        && is_continuation_byte(bytes[2]) {
        lemma_three_byte_range(bytes[0], bytes[1], bytes[2]);
    }
    if bytes.len() >= 4 && is_leading_byte_width_4(bytes[0]) && is_continuation_byte(bytes[1])
        && is_continuation_byte(bytes[2]) && is_continuation_byte(bytes[3]) {
        lemma_four_byte_range(bytes[0], bytes[1], bytes[2], bytes[3]);
    }
}

/// The bytes that could still be completed are exactly those in the ranges
/// of `is_scalar_prefix`.
pub proof fn lemma_could_complete_ranges(bytes: Seq<u8>)
    ensures
        could_complete(bytes) <==> is_scalar_prefix(bytes),
{
    if could_complete(bytes) {
        let more = choose|more: Seq<u8>|
            #[trigger] valid_first_scalar(bytes + more) && 0 < bytes.len()
                < length_of_first_scalar(bytes + more);
        lemma_first_scalar_ranges(bytes + more);
        assert(is_scalar_prefix(bytes));
    }
    if is_scalar_prefix(bytes) {
        let fill: u8 = if bytes.len() == 1 && bytes[0] == 0xE0 {
            0xA0
        } else if bytes.len() == 1 && bytes[0] == 0xF0 {
            0x90
        } else {
            0x80
        };
        let more = seq![fill, 0x80u8, 0x80u8];
        lemma_first_scalar_ranges(bytes + more);
        assert(valid_first_scalar(bytes + more));
    }
}

/// What could still be completed is at most three bytes long and does not
/// hold a whole scalar.
pub proof fn lemma_could_complete_is_short(bytes: Seq<u8>)
    requires
        could_complete(bytes),
    ensures
        1 <= bytes.len() <= 3,
        !valid_first_scalar(bytes),
{
    lemma_could_complete_ranges(bytes);
    lemma_first_scalar_ranges(bytes);
}

/// True when `k` is the largest index such that the first `k` bytes are
/// well-formed UTF-8.
pub open spec fn is_valid_up_to(bytes: Seq<u8>, k: int) -> bool {
    &&& 0 <= k <= bytes.len()
    &&& valid_utf8(bytes.take(k))
    &&& forall|j: int| k < j <= bytes.len() ==> !valid_utf8(#[trigger] bytes.take(j))
}

/// Where and how a buffer stops being well-formed UTF-8.
#[derive(Clone, Copy, Debug, PartialEq, Eq)]
pub struct Utf8Fault {
    /// Number of leading bytes that are well-formed.
    pub valid_up_to: usize,
    /// Length of the ill-formed sequence that follows them, or `None` when
    /// the buffer ends inside a sequence that is well-formed so far.
    pub error_len: Option<usize>,
}

impl Utf8Fault {
    /// True when this fault is the one that `bytes` has.
    pub open spec fn describes(self, bytes: Seq<u8>) -> bool {
        let rest = bytes.skip(self.valid_up_to as int);
        &&& is_valid_up_to(bytes, self.valid_up_to as int)
        &&& match self.error_len {
            None => could_complete(rest),
            Some(n) => !could_complete(rest) && n == ill_formed_len(rest),
        }
    }
}

/// Checks `bytes` with `std::str::from_utf8`.
///
/// Trusted: the result is `Ok` exactly when the bytes are well-formed, and
/// then the text is their decoding. Otherwise the fault carries what
/// `Utf8Error::valid_up_to` and `Utf8Error::error_len` report: the longest
/// well-formed prefix, and `None` when the input ends inside a sequence that
/// more bytes could complete, else the length of the ill-formed sequence.
#[verifier::external_body]
pub(crate) fn validate<'a>(bytes: &'a [u8]) -> (checked: Result<&'a str, Utf8Fault>)
    ensures
        checked is Ok <==> valid_utf8(bytes@),
        checked matches Ok(text) ==> text@ == decode_utf8(bytes@),
        checked matches Err(fault) ==> fault.describes(bytes@),
{
    match std::str::from_utf8(bytes) {
        Ok(text) => Ok(text),
        Err(e) => Err(Utf8Fault { valid_up_to: e.valid_up_to(), error_len: e.error_len() }),
    }
}

} // verus!
