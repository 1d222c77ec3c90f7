//! The metadata of a document: what its header block says of it.

use crate::error::Error;
use crate::layout::Layout;
use crate::tags::{rendered, Tags};
use crate::template::Values;
use vstd::prelude::*;

verus! {

/// A header block as the decoder hands it over, field by field, with the
/// layout still a name.
#[derive(Debug, PartialEq, Eq)]
pub struct Record {
    /// The name of the layout.
    pub layout: String,
    /// The title of the page.
    pub title: String,
    /// The path of the resource that goes with the page.
    pub fungi: String,
    /// The tags, in the order in which they were written.
    pub tags: Vec<String>,
}

/// What a header block says of its document.
#[derive(Debug, PartialEq, Eq)]
pub struct MetaData {
    /// Which template the page is laid out with.
    pub layout: Layout,
    /// The title of the page.
    pub title: String,
    /// The path of the resource that goes with the page, as it was written.
    pub fungi: String,
    /// The tags, in the order in which they were written.
    pub tags: Tags,
}

/// What is said of a header block that asks for a layout that does not
/// exist.
pub open spec fn unknown_layout(name: Seq<char>) -> Seq<char> {
    "unknown layout: "@ + name
}

impl MetaData {
    /// The texts that fill a template for this document, with `body` as
    /// the body of the page: the title and the path as they were written,
    /// and the tags as HTML.
    pub open spec fn values(self, body: Seq<char>) -> Values {
        Values { title: self.title@, tags: rendered(self.tags@), pandoc: body, fungi: self.fungi@ }
    }

    /// Makes metadata of a decoded header block. The layout must be one that
    /// exists: a name that no layout has is an error of decoding, never
    /// some other layout. Everything else is taken over as it is.
    pub fn from_record(record: Record) -> (metadata: Result<MetaData, Error>)
        ensures
            match Layout::named(record.layout@) {
                Some(layout) => metadata == Ok::<MetaData, Error>(
                    MetaData {
                        layout,
                        title: record.title,
                        fungi: record.fungi,
                        tags: Tags(record.tags),
                    },
                ),
                None => metadata matches Err(Error::Yaml(reason)) && reason@ == unknown_layout(
                    record.layout@,
                ),
            },
    {
        match Layout::from_name(record.layout.as_str()) {
            Some(layout) => Ok(
                MetaData {
                    layout,
                    title: record.title,
                    fungi: record.fungi,
                    tags: Tags::from(record.tags),
                },
            ),
            None => {
                let mut reason = String::from_str("unknown layout: ");
                reason.append(record.layout.as_str());
                Err(Error::Yaml(reason))
            },
        }
    }
}

} // verus!
