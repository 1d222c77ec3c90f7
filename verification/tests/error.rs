use staticify::error::{Error, ParseError};

#[test]
fn sentences_of_the_errors() {
    let header =
        "Parse error in your markdown file - do you have a proper header? (--- <header> ---)";
    assert_eq!(Error::Parser(ParseError::Beginning).message(), header);
    assert_eq!(Error::Parser(ParseError::Ending).message(), header);
    assert_eq!(
        Error::Yaml("missing field `title`".to_string()).message(),
        "Invalid yaml in your markdown header"
    );
    assert_eq!(Error::Pandoc("not found".to_string()).message(), "Error executing pandoc");
    assert_eq!(Error::Utf8.message(), "Invalid UTF8 in pandoc output");
    assert_eq!(Error::Io("assets/post.tmpltl: not found".to_string()).message(), "assets/post.tmpltl: not found");
}
