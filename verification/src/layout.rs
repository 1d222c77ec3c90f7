//! Layouts: each names the template that a page is laid out with.

use crate::text::same_text;
use vstd::prelude::*;

verus! {

/// The layouts a document can ask for.
#[derive(Debug, Clone, Copy, PartialEq, Eq, Structural)]
pub enum Layout {
    /// A post.
    Post,
}

impl Layout {
    /// The lower-case name by which a header asks for this layout.
    pub open spec fn label(self) -> Seq<char> {
        match self {
            Layout::Post => "post"@,
        }
    }

    /// The layout that goes by `name`, if there is one.
    pub open spec fn named(name: Seq<char>) -> Option<Layout> {
        if exists|layout: Layout| layout.label() == name {
            Some(choose|layout: Layout| layout.label() == name)
        } else {
            None
        }
    }

    /// The name of the file that holds this layout's template: the layout's
    /// name, a dot, and the extension `tmpltl`.
    pub open spec fn template_name(self) -> Seq<char> {
        self.label() + ".tmpltl"@
    }

    /// The lower-case name of this layout.
    pub fn name(&self) -> (name: &'static str)
        ensures
            name@ == self.label(),
    {
        match self {
            Layout::Post => "post",
        }
    }

    /// The layout that goes by `name`; a name that no layout has gives `None`.
    pub fn from_name(name: &str) -> (layout: Option<Layout>)
        ensures
            layout == Layout::named(name@),
    {
        if same_text(name, Layout::Post.name()) {
            Some(Layout::Post)
        } else {
            None
        }
    }

    /// The name of the file that holds this layout's template.
    pub fn template_file(&self) -> (file: String)
        ensures
            file@ == self.template_name(),
    {
        let mut file = String::from_str(self.name());
        file.append(".tmpltl");
        file
    }
}

} // verus!
