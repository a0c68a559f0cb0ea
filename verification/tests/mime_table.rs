use sstatic::mime::Mimetypes;

#[test]
fn parse_maps_every_extension_to_its_type() {
    let table = Mimetypes::parse(String::from("text/html html htm\nimage/png png\n")).unwrap();
    assert_eq!(table.get("html"), Some(String::from("text/html")));
    assert_eq!(table.get("htm"), Some(String::from("text/html")));
    assert_eq!(table.get("png"), Some(String::from("image/png")));
    assert_eq!(table.get("gif"), None);
}

#[test]
fn later_line_overrides_earlier_one() {
    let table = Mimetypes::parse(String::from(
        "text/plain txt\napplication/x-custom txt\n",
    ))
    .unwrap();
    assert_eq!(table.get("txt"), Some(String::from("application/x-custom")));
}

#[test]
fn later_extension_on_same_line_order_is_kept() {
    let table = Mimetypes::parse(String::from("a/b x y\nc/d y\n")).unwrap();
    assert_eq!(table.get("x"), Some(String::from("a/b")));
    assert_eq!(table.get("y"), Some(String::from("c/d")));
}

#[test]
fn lookup_is_case_sensitive_on_stored_keys() {
    let table = Mimetypes::parse(String::from("text/html html\n")).unwrap();
    assert_eq!(table.get("HTML"), None);
    assert_eq!(table.get("html"), Some(String::from("text/html")));
}

#[test]
fn comments_and_blank_lines_are_skipped() {
    let table = Mimetypes::parse(String::from(
        "# a comment\n\n   \n  # indented comment\ntext/css css\n",
    ))
    .unwrap();
    assert_eq!(table.get("css"), Some(String::from("text/css")));
    assert_eq!(table.get("#"), None);
}

#[test]
fn type_without_extensions_adds_nothing() {
    let table = Mimetypes::parse(String::from("text/lonely\ntext/css css\n")).unwrap();
    assert_eq!(table.get("text/lonely"), None);
    assert_eq!(table.get("css"), Some(String::from("text/css")));
}

#[test]
fn load_without_content_uses_the_default_table() {
    let table = Mimetypes::load(None);
    assert_eq!(table.get("css"), Some(String::from("text/css")));
    assert_eq!(table.get("html"), Some(String::from("text/html")));
    assert_eq!(table.get("js"), Some(String::from("text/javascript")));
}

#[test]
fn load_with_content_parses_it() {
    let table = Mimetypes::load(Some(String::from("x/y z\n")));
    assert_eq!(table.get("z"), Some(String::from("x/y")));
    assert_eq!(table.get("css"), None);
}
