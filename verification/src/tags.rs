//! The tag list of a page and the HTML it is shown as.

use vstd::prelude::*;

verus! {

/// The text of each label, in order.
pub open spec fn labels(tags: Seq<String>) -> Seq<Seq<char>> {
    Seq::new(tags.len(), |i: int| tags[i]@)
}

/// One tag as a link: the label is both the target and the visible text,
/// and is copied as it stands, with nothing escaped.
pub open spec fn link(label: Seq<char>) -> Seq<char> {
    "<a class=\"link\", href=\""@ + label + "\"><code>"@ + label + "</code></a>"@
}

/// What the tag at position `i` adds to the row: its link, led by the
/// separator unless it is the first.
pub open spec fn piece(labels: Seq<Seq<char>>, i: int) -> Seq<char> {
    if i == 0 {
        link(labels[i])
    } else {
        " | "@ + link(labels[i])
    }
}

/// The links of all tags in order, neighbours held apart by ` | `.
pub open spec fn row(labels: Seq<Seq<char>>) -> Seq<char> {
    Seq::new(labels.len(), |i: int| piece(labels, i)).flatten()
}

/// The whole list: the row inside `<p> [ ` and ` ] </p>`.
pub open spec fn rendered(labels: Seq<Seq<char>>) -> Seq<char> {
    "<p> [ "@ + row(labels) + " ] </p>"@
}

/// An ordered list of tags; all it does is render itself.
#[derive(Debug, PartialEq, Eq)]
pub struct Tags(pub Vec<String>);

impl View for Tags {
    type V = Seq<Seq<char>>;

    open spec fn view(&self) -> Seq<Seq<char>> {
        labels(self.0@)
    }
}

impl From<Vec<String>> for Tags {
    fn from(value: Vec<String>) -> (tags: Tags) {
        Tags(value)
    }
}

impl vstd::std_specs::convert::FromSpecImpl<Vec<String>> for Tags {
    open spec fn obeys_from_spec() -> bool {
        true
    }

    open spec fn from_spec(value: Vec<String>) -> Tags {
        Tags(value)
    }
}

impl Tags {
    /// The list as HTML: a bracketed row of links in the order of the tags,
    /// empty inside when there are none.
    pub fn render(&self) -> (html: String)
        ensures
            html@ == rendered(self@),
    {
        let ghost all = self@;
        let mut html = String::new();
        html.append("<p> [ ");
        let mut i: usize = 0;
        while i < self.0.len()
            invariant
                i <= self.0.len(),
                all == self@,
                html@ == "<p> [ "@ + Seq::new(i as nat, |k: int| piece(all, k)).flatten(),
            decreases self.0.len() - i,
        {
            let ghost before = Seq::new(i as nat, |k: int| piece(all, k));
            if i != 0 {
                html.append(" | ");
            }
            html.append("<a class=\"link\", href=\"");
            html.append(self.0[i].as_str());
            html.append("\"><code>");
            html.append(self.0[i].as_str());
            html.append("</code></a>");
            proof {
                let after = Seq::new((i + 1) as nat, |k: int| piece(all, k));
                assert(after =~= before.push(piece(all, i as int)));
                before.lemma_flatten_push(piece(all, i as int));
            }
            i = i + 1;
        }
        html.append(" ] </p>");
        html
    }
}

} // verus!
