//! Incremental, lossy UTF-8 decoding of a byte stream that arrives in chunks
//! cut at arbitrary places.

use crate::stream_laws::{
    lemma_carried_is_incomplete, lemma_decoded_after_valid, lemma_fault_is_not_scalar,
    lemma_held_back_decodes_to_nothing,
};
use crate::utf8::{could_complete, ill_formed_len, lemma_could_complete_is_short, validate};
use vstd::prelude::*;
use vstd::utf8::*;

verus! {

/// The replacement character that stands for one ill-formed sequence.
pub open spec fn replacement() -> char {
    '\u{FFFD}'
}

/// The text that a buffer yields: every well-formed scalar in order, one
/// replacement character for each ill-formed sequence, and nothing for a
/// sequence at the end that later bytes could still complete.
pub open spec fn decoded_text(bytes: Seq<u8>) -> Seq<char>
    decreases bytes.len(),
{
    if bytes.len() == 0 {
        Seq::empty()
    } else if valid_first_scalar(bytes) {
        seq![decode_first_scalar(bytes) as char] + decoded_text(pop_first_scalar(bytes))
    } else if could_complete(bytes) {
        Seq::empty()
    } else {
        seq![replacement()] + decoded_text(bytes.skip(ill_formed_len(bytes)))
    }
}

/// The bytes that a buffer holds back: the sequence at its end that later
/// bytes could still complete, if there is one.
pub open spec fn carried(bytes: Seq<u8>) -> Seq<u8>
    decreases bytes.len(),
{
    if bytes.len() == 0 {
        bytes
    } else if valid_first_scalar(bytes) {
        carried(pop_first_scalar(bytes))
    } else if could_complete(bytes) {
        bytes
    } else {
        carried(bytes.skip(ill_formed_len(bytes)))
    }
}

/// Decodes what `buffer` holds and leaves in it the bytes that are held back
/// for the next call.
///
/// Well-formed text is returned as it stands. Each ill-formed sequence
/// becomes one replacement character. A sequence at the end of the buffer
/// that is well-formed so far but not complete is not decoded: it stays in
/// `buffer`, so that the caller can append the next chunk and call again.
pub fn decode_utf8_stream(buffer: &mut Vec<u8>) -> (output: String)
    ensures
        output@ == decoded_text(old(buffer)@),
        final(buffer)@ == carried(old(buffer)@),
{
    let mut output = String::new();
    loop
        invariant
            output@ + decoded_text(buffer@) == decoded_text(old(buffer)@),
            carried(buffer@) == carried(old(buffer)@),
        ensures
            output@ == decoded_text(old(buffer)@),
            buffer@ == carried(old(buffer)@),
        decreases buffer@.len(),
    {
        if buffer.is_empty() {
            break ;
        }
        let ghost all = buffer@;
        match validate(buffer.as_slice()) {
            Ok(valid) => {
                output.append(valid);
                buffer.clear();
                proof {
                    lemma_decoded_after_valid(all, Seq::empty());
                    assert(all + Seq::<u8>::empty() =~= all);
                }
                break ;
            },
            Err(fault) => {
                let valid_up_to: usize = fault.valid_up_to;
                let ghost rest = all.skip(valid_up_to as int);
                proof {
                    assert(all =~= all.take(valid_up_to as int) + rest);
                    lemma_decoded_after_valid(all.take(valid_up_to as int), rest);
                    lemma_fault_is_not_scalar(all, valid_up_to as int);
                }
                if valid_up_to > 0 {
                    let prefix = vstd::slice::slice_subrange(buffer.as_slice(), 0, valid_up_to);
                    if let Ok(valid) = validate(prefix) {
                        output.append(valid);
                    }
                }
                match fault.error_len {
                    Some(invalid_len) => {
                        proof {
                            reveal_strlit("\u{FFFD}");
                            assert(1 <= invalid_len <= rest.len());
                            assert(valid_up_to + invalid_len <= buffer.len());
                        }
                        output.append("\u{FFFD}");
                        let tail = buffer.split_off(valid_up_to + invalid_len);
                        *buffer = tail;
                        assert(buffer@ =~= rest.skip(invalid_len as int));
                    },
                    None => {
                        let tail = buffer.split_off(valid_up_to);
                        *buffer = tail;
                        break ;
                    },
                }
            },
        }
    }
    output
}


/// The decoder's state between reads: the bytes that the last call held
/// back.
pub struct StreamDecoder {
    remainder: Vec<u8>,
}

impl View for StreamDecoder {
    type V = Seq<u8>;

    /// The bytes that are held back.
    closed spec fn view(&self) -> Seq<u8> {
        self.remainder@
    }
}

impl StreamDecoder {
    /// What is held back is empty or could still be completed.
    #[verifier::type_invariant]
    pub open spec fn holds_incomplete(self) -> bool {
        self@.len() == 0 || could_complete(self@)
    }

    /// A decoder that holds nothing back.
    pub fn new() -> (decoder: Self)
        ensures
            decoder@ == Seq::<u8>::empty(),
    {
        StreamDecoder { remainder: Vec::new() }
    }

    /// The bytes that are held back: none, or one to three bytes that start
    /// a scalar.
    pub fn pending(&self) -> (bytes: &[u8])
        ensures
            bytes@ == self@,
            bytes@.len() <= 3,
            bytes@.len() == 0 || could_complete(bytes@),
    {
        proof {
            use_type_invariant(self);
            if self@.len() > 0 {
                lemma_could_complete_is_short(self@);
            }
        }
        self.remainder.as_slice()
    }

    /// Takes the bytes that a read found and returns the text that is now
    /// complete.
    ///
    /// With no bytes, the result is empty and the state is unchanged.
    /// Otherwise the bytes are appended to what was held back, the whole is
    /// decoded as `decode_utf8_stream` does, and what that holds back is
    /// kept for the next call.
    pub fn feed(&mut self, bytes: &[u8]) -> (text: String)
        ensures
            text@ == decoded_text(old(self)@ + bytes@),
            final(self)@ == carried(old(self)@ + bytes@),
            bytes@.len() == 0 ==> text@ == Seq::<char>::empty() && final(self)@ == old(self)@,
    {
        proof {
            use_type_invariant(&*self);
            lemma_held_back_decodes_to_nothing(self@);
            assert(self@ + Seq::<u8>::empty() =~= self@);
        }
        if bytes.len() == 0 {
            assert(bytes@ =~= Seq::<u8>::empty());
            return String::new();
        }
        let mut buffer: Vec<u8> = Vec::new();
        buffer.extend_from_slice(self.remainder.as_slice());
        buffer.extend_from_slice(bytes);
        assert(buffer@ =~= old(self)@ + bytes@);
        let text = decode_utf8_stream(&mut buffer);
        proof {
            lemma_carried_is_incomplete(old(self)@ + bytes@);
        }
        self.remainder = buffer;
        text
    }
}

} // verus!
