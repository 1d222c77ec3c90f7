#![allow(deprecated)]

use staticify::error::{Error, ParseError};
use staticify::header::header_block;
use staticify::layout::Layout;
use staticify::metadata::{MetaData, Record};
use staticify::pipeline::{Reply, Request, Run, Stage};
use staticify::tags::Tags;
use std::collections::BTreeMap;

/// Decodes a header block with the YAML decoder, field by field.
fn decode(block: &str) -> Result<Record, String> {
    let fields: BTreeMap<String, serde_yml::Value> =
        serde_yml::from_str(block).map_err(|e| e.to_string())?;
    let text = |name: &str| -> Result<String, String> {
        fields
            .get(name)
            .and_then(|value| value.as_str())
            .map(|value| value.to_string())
            .ok_or(format!("missing field `{name}`"))
    };
    let tags = fields
        .get("tags")
        .and_then(|value| value.as_sequence())
        .ok_or("missing field `tags`".to_string())?
        .iter()
        .map(|tag| tag.as_str().map(|tag| tag.to_string()).ok_or("invalid tag".to_string()))
        .collect::<Result<Vec<String>, String>>()?;
    Ok(Record { layout: text("layout")?, title: text("title")?, fungi: text("fungi")?, tags })
}

fn at(stage: Stage) -> Run {
    Run { templates: "assets".to_string(), stage }
}

fn post() -> MetaData {
    MetaData {
        layout: Layout::Post,
        title: "Hello".to_string(),
        fungi: "img/a.png".to_string(),
        tags: Tags(vec![]),
    }
}

#[test]
fn run_begins_by_asking_for_the_document() {
    assert_eq!(Run::start("assets".to_string()), (at(Stage::Start), Request::Read));
    assert_eq!(
        Run::start(String::new()),
        (Run { templates: String::new(), stage: Stage::Start }, Request::Read)
    );
}

#[test]
fn templates_are_looked_for_where_the_run_was_told() {
    let run = Run { templates: "site/layouts".to_string(), stage: Stage::Body(post()) };
    let (run, request) = run.advance(Reply::Output(Ok(b"<p></p>".to_vec())));
    assert_eq!(run.templates, "site/layouts");
    assert_eq!(
        request,
        Request::Load { directory: "site/layouts".to_string(), file: "post.tmpltl".to_string() }
    );
}

#[test]
fn run_from_document_to_page() {
    let document =
        "---\nlayout: post\ntitle: Hello\nfungi: img/a.png\ntags: []\n---\nBody markup here";
    let (run, request) = Run::start("assets".to_string());
    assert_eq!(request, Request::Read);

    let (run, request) = run.advance(Reply::Document(Ok(document.to_string())));
    let block = "layout: post\ntitle: Hello\nfungi: img/a.png\ntags: []\n";
    assert_eq!(run, at(Stage::Header(block.to_string())));
    assert_eq!(request, Request::Decode(block.to_string()));

    let (run, request) = run.advance(Reply::Record(decode(block)));
    assert_eq!(run, at(Stage::Body(post())));
    assert_eq!(request, Request::Render);

    let (run, request) =
        run.advance(Reply::Output(Ok(b"<p>Body markup here</p>".to_vec())));
    assert_eq!(run, at(Stage::Template(post(), "<p>Body markup here</p>".to_string())));
    assert_eq!(request, Request::Load { directory: "assets".to_string(), file: "post.tmpltl".to_string() });

    let template = "<html>{{ TITLE }}{{ TAGS }}{{ PANDOC }}{{ FUNGI }}</html>";
    let (run, request) = run.advance(Reply::Template(Ok(template.to_string())));
    assert_eq!(run, at(Stage::Finished));
    assert_eq!(
        request,
        Request::Emit(
            "<html>Hello<p> [  ] </p><p>Body markup here</p>img/a.png</html>".to_string()
        )
    );

    let (run, request) = run.advance(Reply::Document(Ok(document.to_string())));
    assert_eq!((run, request), (at(Stage::Finished), Request::Halt));
}

#[test]
fn header_block_decodes_and_renders() {
    let document = "---\nlayout: post\ntitle: \"T\"\nfungi: \"p\"\ntags: [\"a\", \"b\"]\n---\n";
    let block = header_block(document).unwrap();
    let metadata = MetaData::from_record(decode(block).unwrap()).unwrap();
    assert_eq!(metadata.layout, Layout::Post);
    assert_eq!(metadata.title, "T");
    assert_eq!(metadata.fungi, "p");
    assert_eq!(metadata.tags.0, vec!["a".to_string(), "b".to_string()]);
    assert_eq!(
        metadata.tags.render(),
        "<p> [ <a class=\"link\", href=\"a\"><code>a</code></a> | <a class=\"link\", href=\"b\"><code>b</code></a> ] </p>"
    );
}

#[test]
fn header_block_with_an_unknown_layout() {
    let document = "---\nlayout: page\ntitle: T\nfungi: p\ntags: []\n---\n";
    let (run, _) = Run::start("assets".to_string());
    let (run, request) = run.advance(Reply::Document(Ok(document.to_string())));
    let Request::Decode(block) = request else { panic!("the header block is to be decoded") };
    let (run, request) = run.advance(Reply::Record(decode(&block)));
    assert_eq!(run, at(Stage::Finished));
    assert_eq!(request, Request::Fail(Error::Yaml("unknown layout: page".to_string())));
}

#[test]
fn document_without_opening_delimiter_ends_the_run() {
    let (run, _) = Run::start("assets".to_string());
    let (run, request) =
        run.advance(Reply::Document(Ok("title: Hello\n---\nBody".to_string())));
    assert_eq!(run, at(Stage::Finished));
    assert_eq!(request, Request::Fail(Error::Parser(ParseError::Beginning)));
    let (run, request) = run.advance(Reply::Record(Ok(Record {
        layout: "post".to_string(),
        title: "Hello".to_string(),
        fungi: "img/a.png".to_string(),
        tags: vec![],
    })));
    assert_eq!((run, request), (at(Stage::Finished), Request::Halt));
    let (run, request) = at(Stage::Finished).advance(Reply::Output(Ok(vec![])));
    assert_eq!((run, request), (at(Stage::Finished), Request::Halt));
}

#[test]
fn document_without_closing_delimiter_ends_the_run() {
    for document in ["---\n", "---\nlayout: post\n", "---\nlayout: post\n--- \n"] {
        let (run, request) = at(Stage::Start).advance(Reply::Document(Ok(document.to_string())));
        assert_eq!(run, at(Stage::Finished));
        assert_eq!(request, Request::Fail(Error::Parser(ParseError::Ending)));
    }
}

#[test]
fn document_that_cannot_be_read() {
    let (run, request) = at(Stage::Start).advance(Reply::Document(Err("no such file".to_string())));
    assert_eq!(run, at(Stage::Finished));
    assert_eq!(request, Request::Fail(Error::Io("no such file".to_string())));
}

#[test]
fn header_block_that_does_not_decode() {
    let run = at(Stage::Header("title: [".to_string()));
    let (run, request) = run.advance(Reply::Record(Err("did not find expected node".to_string())));
    assert_eq!(run, at(Stage::Finished));
    assert_eq!(request, Request::Fail(Error::Yaml("did not find expected node".to_string())));
}

#[test]
fn renderer_that_fails_ends_the_run() {
    let (run, request) = at(Stage::Body(post())).advance(Reply::Output(Err("pandoc: not found".to_string())));
    assert_eq!(run, at(Stage::Finished));
    assert_eq!(request, Request::Fail(Error::Pandoc("pandoc: not found".to_string())));

    let (run, request) = at(Stage::Body(post())).advance(Reply::Output(Ok(vec![b'<', 0xff, b'>'])));
    assert_eq!(run, at(Stage::Finished));
    assert_eq!(request, Request::Fail(Error::Utf8));
}

#[test]
fn template_that_cannot_be_read() {
    let run = at(Stage::Template(post(), "<p></p>".to_string()));
    let (run, request) = run.advance(Reply::Template(Err("assets/post.tmpltl: not found".to_string())));
    assert_eq!(run, at(Stage::Finished));
    assert_eq!(request, Request::Fail(Error::Io("assets/post.tmpltl: not found".to_string())));
}

#[test]
fn reply_that_was_not_waited_for_changes_nothing() {
    let (run, request) = at(Stage::Start).advance(Reply::Template(Ok("{{ TITLE }}".to_string())));
    assert_eq!((run, request), (at(Stage::Start), Request::Read));

    let waiting = at(Stage::Header("layout: post\n".to_string()));
    let (run, request) = waiting.advance(Reply::Output(Ok(vec![])));
    assert_eq!(run, at(Stage::Header("layout: post\n".to_string())));
    assert_eq!(request, Request::Decode("layout: post\n".to_string()));
    let (run, request) = run.advance(Reply::Document(Err("late".to_string())));
    assert_eq!(run, at(Stage::Header("layout: post\n".to_string())));
    assert_eq!(request, Request::Decode("layout: post\n".to_string()));

    let (run, request) = at(Stage::Body(post())).advance(Reply::Template(Err("early".to_string())));
    assert_eq!((run, request), (at(Stage::Body(post())), Request::Render));

    let waiting = at(Stage::Template(post(), "<p></p>".to_string()));
    let (run, request) = waiting.advance(Reply::Output(Ok(vec![])));
    assert_eq!(run, at(Stage::Template(post(), "<p></p>".to_string())));
    assert_eq!(request, Request::Load { directory: "assets".to_string(), file: "post.tmpltl".to_string() });
}
