//! Turns one annotated document into an HTML page: a header block framed by
//! `---` lines carries the metadata, and a template with `{{ NAME }}`
//! placeholders is filled from it.

pub mod error;
pub mod header;
pub mod layout;
pub mod metadata;
pub mod pandoc;
pub mod pipeline;
pub mod tags;
pub mod template;
pub mod text;
