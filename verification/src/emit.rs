//! What is written for a game that is kept.

use core::str::Utf8Error;
use vstd::prelude::*;
use vstd::slice::slice_to_vec;
use vstd::string::StringSliceAdditionalSpecFns;
use vstd::utf8::{valid_utf8, valid_utf8_concat};

verus! {

/// The error of `std::str::from_utf8`. Nothing of it is read here but that it
/// occurred.
#[verifier::external_type_specification]
#[verifier::external_body]
pub struct ExUtf8Error(Utf8Error);

/// A game whose bytes are not UTF-8 text.
#[derive(Clone, Copy, Debug, PartialEq, Eq, Structural)]
pub struct EncodingError {}

/// The line feed that ends each game in the output.
pub const NEWLINE: u8 = 0x0a;

/// The bytes written for a game: the game as it stands in the input, then one
/// line feed.
pub open spec fn emitted(record: Seq<u8>) -> Seq<u8> {
    record.push(NEWLINE)
}

/// Calls `std::str::from_utf8`.
///
/// Trusted: the call succeeds exactly on well-formed UTF-8, and the string
/// slice that it returns holds the bytes that it was given.
#[verifier::external_body]
fn text_of<'a>(bytes: &'a [u8]) -> (r: Result<&'a str, Utf8Error>)
    ensures
        r is Ok <==> valid_utf8(bytes@),
        r matches Ok(text) ==> text.spec_bytes() == bytes@,
{
    core::str::from_utf8(bytes)
}

/// What the output holds of a text is text again.
pub proof fn lemma_emitted_text_is_text(record: Seq<u8>)
    requires
        valid_utf8(record),
    ensures
        valid_utf8(emitted(record)),
{
    let line_feed = seq![NEWLINE];
    assert(valid_utf8(line_feed)) by {
        reveal_with_fuel(valid_utf8, 2);
        assert(line_feed.subrange(1, 1) =~= Seq::<u8>::empty());
    }
    valid_utf8_concat(record, line_feed);
    assert(emitted(record) =~= record + line_feed);
}

/// Gives the bytes to write for a game that is kept: the game's own bytes,
/// unchanged, and a line feed. A game that is not UTF-8 text is refused.
pub fn emit(record: &[u8]) -> (r: Result<Vec<u8>, EncodingError>)
    ensures
        r is Ok <==> valid_utf8(record@),
        r matches Ok(output) ==> output@ == emitted(record@) && valid_utf8(output@),
{
    match text_of(record) {
        Ok(text) => {
            let mut output = slice_to_vec(text.as_bytes());
            output.push(NEWLINE);
            proof {
                lemma_emitted_text_is_text(record@);
            }
            Ok(output)
        },
        Err(_) => Err(EncodingError {  }),
    }
}

} // verus!
