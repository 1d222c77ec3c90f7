use staticify::error::Error;
use staticify::layout::Layout;
use staticify::metadata::{MetaData, Record};
use staticify::tags::Tags;

fn record(layout: &str) -> Record {
    Record {
        layout: layout.to_string(),
        title: "T".to_string(),
        fungi: "p".to_string(),
        tags: vec!["a".to_string(), "b".to_string()],
    }
}

#[test]
fn metadata_of_a_record() {
    assert_eq!(
        MetaData::from_record(record("post")),
        Ok(MetaData {
            layout: Layout::Post,
            title: "T".to_string(),
            fungi: "p".to_string(),
            tags: Tags(vec!["a".to_string(), "b".to_string()]),
        })
    );
}

#[test]
fn unknown_layout_does_not_decode() {
    assert_eq!(
        MetaData::from_record(record("page")),
        Err(Error::Yaml("unknown layout: page".to_string()))
    );
    assert_eq!(
        MetaData::from_record(record("")),
        Err(Error::Yaml("unknown layout: ".to_string()))
    );
    let failed = MetaData::from_record(record("Post"));
    assert!(matches!(failed, Err(Error::Yaml(_))));
    assert!(!matches!(failed, Err(Error::Parser(_))));
}
