//! The header block: the text between the delimiter line that opens a
//! document and the next delimiter line.

use crate::error::ParseError;
use crate::text::{chars_of, find_from, matches_at, occurs_at};
use vstd::prelude::*;
use vstd::string::StrSliceExecFns;

verus! {

/// The delimiter: three hyphens and a line feed.
pub open spec fn delimiter() -> Seq<char> {
    seq!['-', '-', '-', '\n']
}

/// The document opens with the delimiter.
pub open spec fn opens(document: Seq<char>) -> bool {
    occurs_at(document, delimiter(), 0)
}

/// `at` is where the delimiter that closes the block stands: the first place
/// behind the opening delimiter at which a delimiter occurs.
pub open spec fn closes_at(document: Seq<char>, at: int) -> bool {
    &&& 4 <= at
    &&& occurs_at(document, delimiter(), at)
    &&& forall|earlier: int| 4 <= earlier < at ==> !occurs_at(document, delimiter(), earlier)
}

/// A delimiter occurs somewhere behind the opening one.
pub open spec fn closes(document: Seq<char>) -> bool {
    exists|at: int| 4 <= at && occurs_at(document, delimiter(), at)
}

/// The header block of a document, or what is wrong with its frame.
pub open spec fn framed(document: Seq<char>) -> Result<Seq<char>, ParseError> {
    if !opens(document) {
        Err(ParseError::Beginning)
    } else if !closes(document) {
        Err(ParseError::Ending)
    } else {
        Ok(document.subrange(4, choose|at: int| closes_at(document, at)))
    }
}

/// Where the closing delimiter is known, so is the block: the text between
/// the two delimiters.
pub proof fn lemma_block_ends_at(document: Seq<char>, at: int)
    requires
        opens(document),
        closes_at(document, at),
    ensures
        framed(document) == Ok::<Seq<char>, ParseError>(document.subrange(4, at)),
{
}

/// Finds the header block of `input`: the text strictly between the
/// delimiter that opens it and the next delimiter.
pub fn header_block(input: &str) -> (block: Result<&str, ParseError>)
    ensures
        match block {
            Ok(text) => framed(input@) == Ok::<Seq<char>, ParseError>(text@),
            Err(e) => framed(input@) == Err::<Seq<char>, ParseError>(e),
        },
        !opens(input@) ==> block == Err::<&str, ParseError>(ParseError::Beginning),
        opens(input@) && !closes(input@) ==> block == Err::<&str, ParseError>(ParseError::Ending),
        opens(input@) && closes(input@) ==> block is Ok,
{
    let text = chars_of(input);
    let mark = vec!['-', '-', '-', '\n'];
    if !matches_at(&text, &mark, 0) {
        return Err(ParseError::Beginning);
    }
    match find_from(&text, &mark, 4) {
        None => Err(ParseError::Ending),
        Some(at) => {
            proof {
                lemma_block_ends_at(input@, at as int);
            }
            Ok(input.substring_char(4, at))
        },
    }
}

} // verus!
