//! The renderer that turns the body of a document into HTML. It is a
//! program of its own; what is here reads what it wrote.

use crate::error::Error;
use vstd::prelude::*;
use vstd::utf8::{decode_utf8, encode_utf8, encode_utf8_decode_utf8, valid_utf8};

verus! {

/// `String::from_utf8`: the bytes as a string if they are valid UTF-8, and
/// nothing if they are not. The string holds the very bytes that were given.
#[verifier::external_body]
fn text_of(bytes: Vec<u8>) -> (text: Option<String>)
    ensures
        text is Some <==> valid_utf8(bytes@),
        text matches Some(s) ==> encode_utf8(s@) == bytes@,
{
    match String::from_utf8(bytes) {
        Ok(text) => Some(text),
        Err(_) => None,
    }
}

/// The renderer.
#[derive(Debug, Clone, Copy, PartialEq, Eq)]
pub struct Pandoc;

impl Pandoc {
    /// The body of the page, from what came of running the renderer:
    /// either the bytes it wrote, or why it could not be run. The bytes must
    /// be text; whether the renderer was content with its input is not asked.
    pub fn render(captured: Result<Vec<u8>, String>) -> (body: Result<String, Error>)
        ensures
            match captured {
                Ok(bytes) => if valid_utf8(bytes@) {
                    body matches Ok(html) && html@ == decode_utf8(bytes@)
                } else {
                    body == Err::<String, Error>(Error::Utf8)
                },
                Err(reason) => body == Err::<String, Error>(Error::Pandoc(reason)),
            },
    {
        match captured {
            Ok(bytes) => {
                match text_of(bytes) {
                    Some(html) => {
                        proof {
                            encode_utf8_decode_utf8(html@);
                        }
                        Ok(html)
                    },
                    None => Err(Error::Utf8),
                }
            },
            Err(reason) => Err(Error::Pandoc(reason)),
        }
    }
}

} // verus!
