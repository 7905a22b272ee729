//! Decoding of the externally supplied entropy value.
//!
//! The entropy travels as text in a base-58 alphabet for external
//! presentation only; internally it is always 32 raw bytes. Anything that
//! is not the encoding of exactly 32 bytes is rejected.

use vstd::prelude::*;

verus! {

/// What the base-58 decoder yields for a given text: `None` when the text
/// is not valid base 58. The decoding depends on the characters alone.
pub uninterp spec fn base58_decoding(s: Seq<char>) -> Option<Seq<u8>>;

/// Relies on `bs58::decode` with its default alphabet: a pure decoder from
/// text to bytes, failing exactly on text outside the alphabet.
#[verifier::external_body]
fn base58_decode_vec(text: &str) -> (r: Option<Vec<u8>>)
    ensures
        match r {
            Some(v) => base58_decoding(text@) == Some(v@),
            None => base58_decoding(text@) is None,
        },
{
    bs58::decode(text).into_vec().ok()
}

/// The 32 entropy bytes carried by a presented text, if any: the text must
/// be non-empty, decode as base 58, and decode to exactly 32 bytes.
pub open spec fn spec_entropy_of_text(s: Seq<char>) -> Option<Seq<u8>> {
    if s.len() == 0 {
        None
    } else {
        match base58_decoding(s) {
            Some(b) => if b.len() == 32 {
                Some(b)
            } else {
                None
            },
            None => None,
        }
    }
}

/// Decodes a presented entropy text to its 32 raw bytes, or to `None` when
/// the text is empty, not base 58, or not the encoding of exactly 32
/// bytes.
pub fn decode_entropy(text: &str) -> (r: Option<[u8; 32]>)
    ensures
        match r {
            Some(e) => spec_entropy_of_text(text@) == Some(e@),
            None => spec_entropy_of_text(text@) is None,
        },
{
    if text.is_empty() {
        return None;
    }
    match base58_decode_vec(text) {
        None => None,
        Some(bytes) => {
            if bytes.len() != 32 {
                return None;
            }
            let mut out: [u8; 32] = [0u8; 32];
            let mut i: usize = 0;
            while i < 32
                invariant
                    i <= 32,
                    bytes@.len() == 32,
                    out@.len() == 32,
                    forall|k: int| 0 <= k < i ==> out@[k] == bytes@[k],
                decreases 32 - i,
            {
                out[i] = bytes[i];
                i = i + 1;
            }
            assert(out@ =~= bytes@);
            Some(out)
        },
    }
}

} // verus!
