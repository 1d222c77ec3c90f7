//! Templates: text with placeholders of the form `{{ NAME }}`, and how a
//! page is made from one.
//!
//! A template is read once, from left to right. Where the token of a
//! placeholder stands that has not been met before, the placeholder's value
//! takes its place; every other character is copied. A placeholder is
//! replaced where it first stands and nowhere else, and a value that has been
//! put in is never read again, whatever it holds.

pub mod laws;

use crate::metadata::MetaData;
use crate::text::{chars_of, lemma_occurs_shifted, matches_at, occurs_at};
use vstd::prelude::*;
use vstd::string::StrSliceExecFns;

verus! {

/// The placeholders a template can hold.
#[derive(Debug, Clone, Copy, PartialEq, Eq, Structural)]
pub enum Placeholder {
    /// The title of the page.
    Title,
    /// The tag list, as HTML.
    Tags,
    /// The body of the page, as HTML.
    Pandoc,
    /// The path of the resource that goes with the page.
    Fungi,
}

impl Placeholder {
    /// The text that stands for this placeholder in a template.
    pub open spec fn token(self) -> Seq<char> {
        match self {
            Placeholder::Title => "{{ TITLE }}"@,
            Placeholder::Tags => "{{ TAGS }}"@,
            Placeholder::Pandoc => "{{ PANDOC }}"@,
            Placeholder::Fungi => "{{ FUNGI }}"@,
        }
    }
}

/// The texts that take the placeholders' places. Each is put into the page
/// as it is: nothing in it is escaped, and nothing in it is replaced.
pub struct Values {
    /// The title of the page.
    pub title: Seq<char>,
    /// The tag list, as HTML.
    pub tags: Seq<char>,
    /// The body of the page, as HTML.
    pub pandoc: Seq<char>,
    /// The path of the resource that goes with the page.
    pub fungi: Seq<char>,
}

impl Values {
    /// The text that takes the place of `placeholder`.
    pub open spec fn of(self, placeholder: Placeholder) -> Seq<char> {
        match placeholder {
            Placeholder::Title => self.title,
            Placeholder::Tags => self.tags,
            Placeholder::Pandoc => self.pandoc,
            Placeholder::Fungi => self.fungi,
        }
    }
}

/// Which placeholders have not been replaced yet: one flag for each.
#[derive(Debug, Clone, Copy, PartialEq, Eq, Structural)]
pub struct Pending {
    pub title: bool,
    pub tags: bool,
    pub pandoc: bool,
    pub fungi: bool,
}

impl Pending {
    /// Every placeholder is still to be replaced.
    pub open spec fn all() -> Pending {
        Pending { title: true, tags: true, pandoc: true, fungi: true }
    }

    /// `placeholder` is still to be replaced.
    pub open spec fn has(self, placeholder: Placeholder) -> bool {
        match placeholder {
            Placeholder::Title => self.title,
            Placeholder::Tags => self.tags,
            Placeholder::Pandoc => self.pandoc,
            Placeholder::Fungi => self.fungi,
        }
    }

    /// The same, with `placeholder` replaced.
    pub open spec fn without(self, placeholder: Placeholder) -> Pending {
        match placeholder {
            Placeholder::Title => Pending { title: false, ..self },
            Placeholder::Tags => Pending { tags: false, ..self },
            Placeholder::Pandoc => Pending { pandoc: false, ..self },
            Placeholder::Fungi => Pending { fungi: false, ..self },
        }
    }
}

/// `text` begins with the token of `placeholder`, which is still pending.
pub open spec fn begins_with(text: Seq<char>, pending: Pending, placeholder: Placeholder) -> bool {
    pending.has(placeholder) && occurs_at(text, placeholder.token(), 0)
}

/// The pending placeholder whose token `text` begins with.
pub open spec fn leading(text: Seq<char>, pending: Pending) -> Option<Placeholder> {
    if begins_with(text, pending, Placeholder::Title) {
        Some(Placeholder::Title)
    } else if begins_with(text, pending, Placeholder::Tags) {
        Some(Placeholder::Tags)
    } else if begins_with(text, pending, Placeholder::Pandoc) {
        Some(Placeholder::Pandoc)
    } else if begins_with(text, pending, Placeholder::Fungi) {
        Some(Placeholder::Fungi)
    } else {
        None
    }
}

/// The length of each token.
pub proof fn lemma_token_lengths()
    ensures
        Placeholder::Title.token().len() == 11,
        Placeholder::Tags.token().len() == 10,
        Placeholder::Pandoc.token().len() == 12,
        Placeholder::Fungi.token().len() == 11,
{
    reveal_strlit("{{ TITLE }}");
    reveal_strlit("{{ TAGS }}");
    reveal_strlit("{{ PANDOC }}");
    reveal_strlit("{{ FUNGI }}");
}

/// `text` with each pending placeholder replaced where it first stands.
#[verifier::opaque]
pub open spec fn filled(text: Seq<char>, values: Values, pending: Pending) -> Seq<char>
    decreases text.len(),
{
    if text.len() == 0 {
        text
    } else {
        match leading(text, pending) {
            Some(placeholder) => {
                proof {
                    lemma_token_lengths();
                }
                values.of(placeholder) + filled(
                    text.skip(placeholder.token().len() as int),
                    values,
                    pending.without(placeholder),
                )
            },
            None => text.take(1) + filled(text.skip(1), values, pending),
        }
    }
}

/// The page that `template` gives with `values`.
pub open spec fn page(template: Seq<char>, values: Values) -> Seq<char> {
    filled(template, values, Pending::all())
}

/// The tokens of the four placeholders, character by character.
struct Tokens {
    title: Vec<char>,
    tags: Vec<char>,
    pandoc: Vec<char>,
    fungi: Vec<char>,
}

impl Tokens {
    /// Each field holds the token of its placeholder.
    spec fn exact(&self) -> bool {
        &&& self.title@ == Placeholder::Title.token()
        &&& self.tags@ == Placeholder::Tags.token()
        &&& self.pandoc@ == Placeholder::Pandoc.token()
        &&& self.fungi@ == Placeholder::Fungi.token()
    }

    fn new() -> (tokens: Tokens)
        ensures
            tokens.exact(),
    {
        Tokens {
            title: chars_of("{{ TITLE }}"),
            tags: chars_of("{{ TAGS }}"),
            pandoc: chars_of("{{ PANDOC }}"),
            fungi: chars_of("{{ FUNGI }}"),
        }
    }
}

/// One step of the reading, at position `at` of `text`: either a value
/// takes the place of the token that stands there, or one character is
/// copied.
proof fn lemma_step(text: Seq<char>, at: int, values: Values, pending: Pending)
    requires
        0 <= at < text.len(),
    ensures
        match leading(text.skip(at), pending) {
            Some(placeholder) => {
                &&& 0 < placeholder.token().len()
                &&& at + placeholder.token().len() <= text.len()
                &&& filled(text.skip(at), values, pending) == values.of(placeholder) + filled(
                    text.skip(at + placeholder.token().len()),
                    values,
                    pending.without(placeholder),
                )
            },
            None => filled(text.skip(at), values, pending) == seq![text[at]] + filled(
                text.skip(at + 1),
                values,
                pending,
            ),
        },
{
    let rest = text.skip(at);
    reveal(filled);
    lemma_token_lengths();
    match leading(rest, pending) {
        Some(placeholder) => {
            assert(rest.skip(placeholder.token().len() as int) =~= text.skip(
                at + placeholder.token().len(),
            ));
        },
        None => {
            assert(rest.skip(1) =~= text.skip(at + 1));
        },
    }
}

/// The pending placeholder whose token stands in `text` at `at`.
fn leading_at(text: &Vec<char>, at: usize, pending: Pending, tokens: &Tokens) -> (found: Option<
    Placeholder,
>)
    requires
        at <= text.len(),
        tokens.exact(),
    ensures
        found == leading(text@.skip(at as int), pending),
{
    proof {
        lemma_occurs_shifted(text@, Placeholder::Title.token(), at as int, 0);
        lemma_occurs_shifted(text@, Placeholder::Tags.token(), at as int, 0);
        lemma_occurs_shifted(text@, Placeholder::Pandoc.token(), at as int, 0);
        lemma_occurs_shifted(text@, Placeholder::Fungi.token(), at as int, 0);
    }
    if pending.title && matches_at(text, &tokens.title, at) {
        Some(Placeholder::Title)
    } else if pending.tags && matches_at(text, &tokens.tags, at) {
        Some(Placeholder::Tags)
    } else if pending.pandoc && matches_at(text, &tokens.pandoc, at) {
        Some(Placeholder::Pandoc)
    } else if pending.fungi && matches_at(text, &tokens.fungi, at) {
        Some(Placeholder::Fungi)
    } else {
        None
    }
}

/// Fills `template`: each of the four placeholders is replaced, where it
/// first stands, by the text given for it. The texts are put in as they are.
pub fn substitute(template: &str, title: &str, tags: &str, pandoc: &str, fungi: &str) -> (made:
    String)
    ensures
        made@ == page(
            template@,
            (Values { title: title@, tags: tags@, pandoc: pandoc@, fungi: fungi@ }),
        ),
{
    let ghost values = Values { title: title@, tags: tags@, pandoc: pandoc@, fungi: fungi@ };
    let text = chars_of(template);
    let tokens = Tokens::new();
    let mut pending = Pending { title: true, tags: true, pandoc: true, fungi: true };
    let mut made = String::new();
    let mut start: usize = 0;
    let mut at: usize = 0;
    proof {
        assert(text@.skip(0) =~= template@);
    }
    while at < text.len()
        invariant
            start <= at <= text.len(),
            text@ == template@,
            tokens.exact(),
            values == (Values { title: title@, tags: tags@, pandoc: pandoc@, fungi: fungi@ }),
            page(template@, values) == made@ + text@.subrange(start as int, at as int) + filled(
                text@.skip(at as int),
                values,
                pending,
            ),
        decreases text.len() - at,
    {
        proof {
            lemma_step(text@, at as int, values, pending);
        }
        match leading_at(&text, at, pending, &tokens) {
            Some(placeholder) => {
                made.append(template.substring_char(start, at));
                match placeholder {
                    Placeholder::Title => {
                        made.append(title);
                        pending.title = false;
                        at = at + tokens.title.len();
                    },
                    Placeholder::Tags => {
                        made.append(tags);
                        pending.tags = false;
                        at = at + tokens.tags.len();
                    },
                    Placeholder::Pandoc => {
                        made.append(pandoc);
                        pending.pandoc = false;
                        at = at + tokens.pandoc.len();
                    },
                    Placeholder::Fungi => {
                        made.append(fungi);
                        pending.fungi = false;
                        at = at + tokens.fungi.len();
                    },
                }
                start = at;
            },
            None => {
                at = at + 1;
            },
        }
    }
    proof {
        reveal(filled);
    }
    made.append(template.substring_char(start, at));
    made
}

/// The page of a document: `template` filled with the title, the tags as
/// HTML, `body` and the resource path of `metadata`.
pub fn render_page(template: &str, metadata: &MetaData, body: &str) -> (made: String)
    ensures
        made@ == page(template@, metadata.values(body@)),
{
    let tags = metadata.tags.render();
    substitute(
        template,
        metadata.title.as_str(),
        tags.as_str(),
        body,
        metadata.fungi.as_str(),
    )
}

} // verus!
