use staticify::error::ParseError;
use staticify::header::header_block;

#[test]
fn block_between_the_delimiters() {
    let doc = "---\nlayout: post\ntitle: Hello\n---\nBody markup here";
    assert_eq!(header_block(doc), Ok("layout: post\ntitle: Hello\n"));
}

#[test]
fn missing_opening_delimiter() {
    assert_eq!(header_block("layout: post\n---\n"), Err(ParseError::Beginning));
    assert_eq!(header_block(""), Err(ParseError::Beginning));
    assert_eq!(header_block("---"), Err(ParseError::Beginning));
    assert_eq!(header_block("--\n---\n---\n"), Err(ParseError::Beginning));
    assert_eq!(header_block(" ---\ntitle: x\n---\n"), Err(ParseError::Beginning));
    assert_eq!(header_block("\n---\ntitle: x\n---\n"), Err(ParseError::Beginning));
    assert_eq!(header_block("---\r\ntitle: x\r\n---\r\n"), Err(ParseError::Beginning));
}

#[test]
fn missing_closing_delimiter() {
    assert_eq!(header_block("---\n"), Err(ParseError::Ending));
    assert_eq!(header_block("---\ntitle: x\n"), Err(ParseError::Ending));
    assert_eq!(header_block("---\ntitle: x\n---"), Err(ParseError::Ending));
    assert_eq!(header_block("---\n--\n-\n"), Err(ParseError::Ending));
}

#[test]
fn missing_closing_delimiter_in_a_long_document() {
    let mut doc = String::from("---\n");
    for _ in 0..20_000 {
        doc.push_str("line\n");
    }
    assert_eq!(header_block(&doc), Err(ParseError::Ending));
}

#[test]
fn empty_block() {
    assert_eq!(header_block("---\n---\n"), Ok(""));
    assert_eq!(header_block("---\n---\nbody"), Ok(""));
}

#[test]
fn first_closing_delimiter_ends_the_block() {
    assert_eq!(header_block("---\na\n---\nb\n---\nc"), Ok("a\n"));
}

#[test]
fn delimiter_need_not_start_a_line() {
    assert_eq!(header_block("---\nfoo\n----\nbar"), Ok("foo\n-"));
    assert_eq!(header_block("---\ntitle: a---\nrest"), Ok("title: a"));
}

#[test]
fn block_with_characters_of_several_bytes() {
    let doc = "---\ntitle: Żółć – naïve 日本語\n---\nécrit";
    assert_eq!(header_block(doc), Ok("title: Żółć – naïve 日本語\n"));
}
