//! A run, from document to page, as a sequence of decisions.
//!
//! The work that a run needs from outside (reading files, decoding the
//! header block, running the renderer) is not done here. A run asks for it,
//! one request at a time, and is told what came of it. The header block is
//! looked at first: nothing else is asked for on behalf of a document whose
//! header is not in order. Where the templates lie is said when a run
//! begins, and nothing else decides it.

use crate::error::Error;
use crate::header::{framed, header_block};
use crate::layout::Layout;
use crate::metadata::{unknown_layout, MetaData, Record};
use crate::pandoc::Pandoc;
use crate::tags::Tags;
use crate::template::{page, render_page};
use vstd::prelude::*;
use vstd::utf8::{decode_utf8, valid_utf8};

verus! {

/// What a run asks for.
#[derive(Debug, PartialEq, Eq)]
pub enum Request {
    /// Read the document.
    Read,
    /// Decode this header block.
    Decode(String),
    /// Run the renderer on the document.
    Render,
    /// Read the template in the file `file` of the directory `directory`.
    Load { directory: String, file: String },
    /// Put out this page: the run has succeeded.
    Emit(String),
    /// Report this error: the run has failed.
    Fail(Error),
    /// Nothing: the run is over.
    Halt,
}

/// What came of a request: what was asked for, or why it could not be had.
#[derive(Debug, PartialEq, Eq)]
pub enum Reply {
    /// The text of the document.
    Document(Result<String, String>),
    /// The header block, decoded.
    Record(Result<Record, String>),
    /// What the renderer wrote.
    Output(Result<Vec<u8>, String>),
    /// The text of the template.
    Template(Result<String, String>),
}

/// A run: where its templates lie, and how far it has come.
#[derive(Debug, PartialEq, Eq)]
pub struct Run {
    /// The directory that holds one template for each layout.
    pub templates: String,
    /// How far the run has come.
    pub stage: Stage,
}

/// How far a run has come.
#[derive(Debug, PartialEq, Eq)]
pub enum Stage {
    /// The document is to be read.
    Start,
    /// This header block is to be decoded.
    Header(String),
    /// The metadata is known; the renderer is to be run.
    Body(MetaData),
    /// Metadata and body are known; the template is to be read.
    Template(MetaData, String),
    /// The run is over.
    Finished,
}

impl Run {
    /// `request` is what this run waits for.
    pub open spec fn asks(self, request: Request) -> bool {
        match self.stage {
            Stage::Start => request is Read,
            Stage::Header(block) => request matches Request::Decode(sent) && sent@ == block@,
            Stage::Body(_) => request is Render,
            Stage::Template(metadata, _) => {
                &&& request matches Request::Load { directory, file }
                &&& directory@ == self.templates@
                &&& file@ == metadata.layout.template_name()
            },
            Stage::Finished => request is Halt,
        }
    }

    /// This run, told `reply`, goes on as `next` and asks for `request`.
    pub open spec fn follows(self, reply: Reply, next: Run, request: Request) -> bool {
        &&& next.templates == self.templates
        &&& match (self.stage, reply) {
            (Stage::Start, Reply::Document(Ok(document))) => match framed(document@) {
                Ok(block) => {
                    &&& next.stage matches Stage::Header(kept)
                    &&& kept@ == block
                    &&& next.asks(request)
                },
                Err(e) => {
                    &&& next.stage is Finished
                    &&& request == Request::Fail(Error::Parser(e))
                },
            },
            (Stage::Start, Reply::Document(Err(reason))) => {
                &&& next.stage is Finished
                &&& request == Request::Fail(Error::Io(reason))
            },
            (Stage::Header(_), Reply::Record(Ok(record))) => match Layout::named(record.layout@) {
                Some(layout) => {
                    &&& next.stage == Stage::Body(
                        MetaData {
                            layout,
                            title: record.title,
                            fungi: record.fungi,
                            tags: Tags(record.tags),
                        },
                    )
                    &&& next.asks(request)
                },
                None => {
                    &&& next.stage is Finished
                    &&& request matches Request::Fail(Error::Yaml(reason))
                    &&& reason@ == unknown_layout(record.layout@)
                },
            },
            (Stage::Header(_), Reply::Record(Err(reason))) => {
                &&& next.stage is Finished
                &&& request == Request::Fail(Error::Yaml(reason))
            },
            (Stage::Body(metadata), Reply::Output(Ok(bytes))) => if valid_utf8(bytes@) {
                &&& next.stage matches Stage::Template(kept, body)
                &&& kept == metadata
                &&& body@ == decode_utf8(bytes@)
                &&& next.asks(request)
            } else {
                &&& next.stage is Finished
                &&& request == Request::Fail(Error::Utf8)
            },
            (Stage::Body(_), Reply::Output(Err(reason))) => {
                &&& next.stage is Finished
                &&& request == Request::Fail(Error::Pandoc(reason))
            },
            (Stage::Template(metadata, body), Reply::Template(Ok(template))) => {
                &&& next.stage is Finished
                &&& request matches Request::Emit(made)
                &&& made@ == page(template@, metadata.values(body@))
            },
            (Stage::Template(_, _), Reply::Template(Err(reason))) => {
                &&& next.stage is Finished
                &&& request == Request::Fail(Error::Io(reason))
            },
            _ => next.stage == self.stage && next.asks(request),
        }
    }

    /// Begins a run that takes its templates from the directory `templates`,
    /// and says what it asks for first.
    pub fn start(templates: String) -> (begun: (Run, Request))
        ensures
            begun.0.templates == templates,
            begun.0.stage is Start,
            begun.0.asks(begun.1),
    {
        (Run { templates, stage: Stage::Start }, Request::Read)
    }

    /// What this run asks for, when nothing new has come in.
    fn again(&self) -> (request: Request)
        ensures
            self.asks(request),
    {
        match &self.stage {
            Stage::Start => Request::Read,
            Stage::Header(block) => Request::Decode(block.clone()),
            Stage::Body(_) => Request::Render,
            Stage::Template(metadata, _) => Request::Load {
                directory: self.templates.clone(),
                file: metadata.layout.template_file(),
            },
            Stage::Finished => Request::Halt,
        }
    }

    /// Takes this run one step further: told what came of its last request,
    /// it says where it stands now and what it asks for next. A reply that
    /// the run did not wait for changes nothing, and the run asks again.
    pub fn advance(self, reply: Reply) -> (step: (Run, Request))
        ensures
            self.follows(reply, step.0, step.1),
    {
        let templates = self.templates;
        match (self.stage, reply) {
            (Stage::Start, Reply::Document(Ok(document))) => {
                match header_block(document.as_str()) {
                    Ok(block) => {
                        let next = Run { templates, stage: Stage::Header(String::from_str(block)) };
                        let request = next.again();
                        (next, request)
                    },
                    Err(e) => (
                        Run { templates, stage: Stage::Finished },
                        Request::Fail(Error::Parser(e)),
                    ),
                }
            },
            (Stage::Start, Reply::Document(Err(reason))) => (
                Run { templates, stage: Stage::Finished },
                Request::Fail(Error::Io(reason)),
            ),
            (Stage::Header(_), Reply::Record(Ok(record))) => {
                match MetaData::from_record(record) {
                    Ok(metadata) => (
                        Run { templates, stage: Stage::Body(metadata) },
                        Request::Render,
                    ),
                    Err(e) => (Run { templates, stage: Stage::Finished }, Request::Fail(e)),
                }
            },
            (Stage::Header(_), Reply::Record(Err(reason))) => (
                Run { templates, stage: Stage::Finished },
                Request::Fail(Error::Yaml(reason)),
            ),
            (Stage::Body(metadata), Reply::Output(captured)) => {
                match Pandoc::render(captured) {
                    Ok(body) => {
                        let next = Run { templates, stage: Stage::Template(metadata, body) };
                        let request = next.again();
                        (next, request)
                    },
                    Err(e) => (Run { templates, stage: Stage::Finished }, Request::Fail(e)),
                }
            },
            (Stage::Template(metadata, body), Reply::Template(Ok(template))) => {
                let made = render_page(template.as_str(), &metadata, body.as_str());
                (Run { templates, stage: Stage::Finished }, Request::Emit(made))
            },
            (Stage::Template(_, _), Reply::Template(Err(reason))) => (
                Run { templates, stage: Stage::Finished },
                Request::Fail(Error::Io(reason)),
            ),
            (stage, _) => {
                let next = Run { templates, stage };
                let request = next.again();
                (next, request)
            },
        }
    }
}

/// A run from its beginning, step by step: each state follows from the one
/// before by the reply that came in, with the request that was made then.
pub open spec fn is_run(states: Seq<Run>, replies: Seq<Reply>, requests: Seq<Request>) -> bool {
    &&& states.len() == replies.len() + 1
    &&& requests.len() == replies.len()
    &&& states[0].stage is Start
    &&& forall|i: int|
        0 <= i < replies.len() ==> (#[trigger] states[i]).follows(
            replies[i],
            states[i + 1],
            requests[i],
        )
}

/// The header comes first. In a run that is told of a document whose header
/// block is not framed as it must be, the answer to that is the error that
/// says which delimiter is missing; nothing was asked for before but the
/// document, and nothing is asked for after. Such a run never has a header
/// decoded, the renderer run, a template read or a page put out.
pub proof fn lemma_header_comes_first(
    states: Seq<Run>,
    replies: Seq<Reply>,
    requests: Seq<Request>,
    told: int,
)
    requires
        is_run(states, replies, requests),
        0 <= told < replies.len(),
        states[told].stage is Start,
        replies[told] matches Reply::Document(Ok(document)) && framed(document@) is Err,
    ensures
        ({
            &&& replies[told] matches Reply::Document(Ok(document))
            &&& requests[told] matches Request::Fail(Error::Parser(e))
            &&& framed(document@) == Err::<Seq<char>, _>(e)
        }),
        forall|i: int| 0 <= i < told ==> requests[i] is Read,
        forall|i: int| told < i < requests.len() ==> requests[i] is Halt,
{
    assert forall|i: int| 0 <= i < told implies requests[i] is Read by {
        lemma_start_until(states, replies, requests, told, i);
    }
    assert forall|i: int| told < i < requests.len() implies requests[i] is Halt by {
        lemma_finished_from(states, replies, requests, told + 1, i);
    }
}

/// Before step `i` of a run, a document came in whose header block is
/// framed as it must be.
pub open spec fn framed_before(states: Seq<Run>, replies: Seq<Reply>, i: int) -> bool {
    exists|j: int|
        0 <= j < i && (#[trigger] states[j]).stage is Start && framed_document(replies[j])
}

/// Before step `i` of a run, a header block came back decoded, with a
/// layout that exists.
pub open spec fn decoded_before(states: Seq<Run>, replies: Seq<Reply>, i: int) -> bool {
    exists|j: int|
        0 <= j < i && (#[trigger] states[j]).stage is Header && decoded_header(replies[j])
}

/// The reply brings a document whose header block is framed as it must be.
pub open spec fn framed_document(reply: Reply) -> bool {
    reply matches Reply::Document(Ok(document)) && framed(document@) is Ok
}

/// The reply brings a decoded header block with a layout that exists.
pub open spec fn decoded_header(reply: Reply) -> bool {
    reply matches Reply::Record(Ok(record)) && Layout::named(record.layout@) is Some
}

/// Nothing is rendered on trust. Whenever a run asks for the renderer, for
/// a template or for a page to be put out, a document with a well-framed
/// header block has come in before, and its header block has come back
/// decoded, with a layout that exists.
pub proof fn lemma_header_before_body(
    states: Seq<Run>,
    replies: Seq<Reply>,
    requests: Seq<Request>,
    i: int,
)
    requires
        is_run(states, replies, requests),
        0 <= i < requests.len(),
        requests[i] is Render || requests[i] is Load || requests[i] is Emit,
    ensures
        framed_before(states, replies, i + 1),
        decoded_before(states, replies, i + 1),
{
    assert(states[i].follows(replies[i], states[i + 1], requests[i]));
    if requests[i] is Emit {
        lemma_history(states, replies, requests, i);
    } else {
        lemma_history(states, replies, requests, i + 1);
    }
}

/// How a run has come to where it stands: past its start only by a
/// well-framed document, and past the header only by a decoded one.
proof fn lemma_history(states: Seq<Run>, replies: Seq<Reply>, requests: Seq<Request>, i: int)
    requires
        is_run(states, replies, requests),
        0 <= i <= replies.len(),
    ensures
        states[i].stage is Header || states[i].stage is Body || states[i].stage is Template
            ==> framed_before(states, replies, i),
        states[i].stage is Body || states[i].stage is Template ==> decoded_before(
            states,
            replies,
            i,
        ),
    decreases i,
{
    if i > 0 {
        lemma_history(states, replies, requests, i - 1);
    }
}

/// A run that is at its start has been there all along, asking for the
/// document.
proof fn lemma_start_until(
    states: Seq<Run>,
    replies: Seq<Reply>,
    requests: Seq<Request>,
    later: int,
    i: int,
)
    requires
        is_run(states, replies, requests),
        0 <= i < later <= replies.len(),
        states[later].stage is Start,
    ensures
        states[i].stage is Start,
        requests[i] is Read,
    decreases later - i,
{
    if i + 1 < later {
        lemma_start_until(states, replies, requests, later, i + 1);
    }
    assert(states[i].follows(replies[i], states[i + 1], requests[i]));
}

/// A run that is over stays over, and asks for nothing.
proof fn lemma_finished_from(
    states: Seq<Run>,
    replies: Seq<Reply>,
    requests: Seq<Request>,
    over: int,
    i: int,
)
    requires
        is_run(states, replies, requests),
        0 <= over <= i < replies.len(),
        states[over].stage is Finished,
    ensures
        states[i].stage is Finished,
        requests[i] is Halt,
    decreases i - over,
{
    if over < i {
        lemma_finished_from(states, replies, requests, over, i - 1);
    }
    assert(states[i].follows(replies[i], states[i + 1], requests[i]));
}

} // verus!
