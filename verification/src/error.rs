//! What can go wrong in a run.

use vstd::prelude::*;

verus! {

/// How a document can lack its header block.
#[derive(Debug, Clone, Copy, PartialEq, Eq, Structural)]
pub enum ParseError {
    /// The document does not open with the delimiter line.
    Beginning,
    /// No delimiter line closes the block.
    Ending,
}

/// Why a run produced no page.
#[derive(Debug, PartialEq, Eq)]
pub enum Error {
    /// The header block is not framed as it must be.
    Parser(ParseError),
    /// The header block does not decode into metadata; the text explains.
    Yaml(String),
    /// The renderer could not be run; the text explains.
    Pandoc(String),
    /// The renderer ran, and what it wrote is not text.
    Utf8,
    /// The document or the template could not be read; the text explains.
    Io(String),
}

impl Error {
    /// The sentence shown for this error.
    pub open spec fn sentence(self) -> Seq<char> {
        match self {
            Error::Parser(_) =>
                "Parse error in your markdown file - do you have a proper header? (--- <header> ---)"@,
            Error::Yaml(_) => "Invalid yaml in your markdown header"@,
            Error::Pandoc(_) => "Error executing pandoc"@,
            Error::Utf8 => "Invalid UTF8 in pandoc output"@,
            Error::Io(reason) => reason@,
        }
    }

    /// The sentence shown for this error: one fixed sentence per kind, and
    /// for a file that could not be read the explanation itself.
    pub fn message(&self) -> (text: String)
        ensures
            text@ == self.sentence(),
    {
        match self {
            Error::Parser(_) => String::from_str(
                "Parse error in your markdown file - do you have a proper header? (--- <header> ---)",
            ),
            Error::Yaml(_) => String::from_str("Invalid yaml in your markdown header"),
            Error::Pandoc(_) => String::from_str("Error executing pandoc"),
            Error::Utf8 => String::from_str("Invalid UTF8 in pandoc output"),
            Error::Io(reason) => reason.clone(),
        }
    }
}

} // verus!
