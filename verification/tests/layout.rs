use staticify::layout::Layout;

#[test]
fn layout_names() {
    assert_eq!(Layout::Post.name(), "post");
    assert_eq!(Layout::from_name("post"), Some(Layout::Post));
    assert_eq!(Layout::from_name(Layout::Post.name()), Some(Layout::Post));
}

#[test]
fn names_that_no_layout_has() {
    assert_eq!(Layout::from_name(""), None);
    assert_eq!(Layout::from_name("Post"), None);
    assert_eq!(Layout::from_name("POST"), None);
    assert_eq!(Layout::from_name("posts"), None);
    assert_eq!(Layout::from_name("pos"), None);
    assert_eq!(Layout::from_name(" post"), None);
    assert_eq!(Layout::from_name("page"), None);
}

#[test]
fn template_file_of_a_layout() {
    assert_eq!(Layout::Post.template_file(), "post.tmpltl");
}
