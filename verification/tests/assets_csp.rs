use sstatic::assets::{asset_outcome, content_type, html_or_default, path_is_safe, AssetOutcome};
use sstatic::csp::build_csp;
use sstatic::mime::Mimetypes;
use sstatic::template::Template;

fn table() -> Mimetypes {
    Mimetypes::parse(String::from("text/css css\ntext/html html\n")).unwrap()
}

#[test]
fn nonexistent_file_is_not_found() {
    let outcome = asset_outcome(&table(), "missing.css", None);
    assert!(matches!(outcome, AssetOutcome::NotFound));
}

#[test]
fn real_file_is_found_with_its_mime_type() {
    let bytes = vec![1u8, 2, 3];
    let outcome = asset_outcome(&table(), "style.css", Some(bytes.clone()));
    match outcome {
        AssetOutcome::Found(b, mime) => {
            assert_eq!(b, bytes);
            assert_eq!(mime, "text/css");
        },
        AssetOutcome::NotFound => panic!("expected Found"),
    }
}

#[test]
fn unknown_extension_defaults_to_text_plain() {
    let outcome = asset_outcome(&table(), "data.bin", Some(vec![0u8]));
    match outcome {
        AssetOutcome::Found(_, mime) => assert_eq!(mime, "text/plain"),
        AssetOutcome::NotFound => panic!("expected Found"),
    }
}

#[test]
fn extension_lookup_is_case_normalized() {
    assert_eq!(content_type(&table(), "STYLE.CSS"), "text/css");
    assert_eq!(content_type(&table(), "page.HtMl"), "text/html");
}

#[test]
fn names_without_usable_extension_default_to_text_plain() {
    assert_eq!(content_type(&table(), "README"), "text/plain");
    assert_eq!(content_type(&table(), ".gitignore"), "text/plain");
    assert_eq!(content_type(&table(), "trailing."), "text/plain");
}

#[test]
fn traversal_attempts_are_rejected() {
    assert!(!path_is_safe(".."));
    assert!(!path_is_safe("a/b"));
    assert!(!path_is_safe("..\\up"));
    assert!(path_is_safe("ok.txt"));
    assert!(path_is_safe("."));
}

#[test]
fn missing_html_compiles_the_embedded_page() {
    let fallback = html_or_default(None);
    let (from_missing, _, _) = Template::new(fallback, None, None).unwrap();
    let (from_default, _, _) =
        Template::new(sstatic::assets::default_page(), None, None).unwrap();
    assert_eq!(from_missing.text, from_default.text);
    assert!(from_missing.text.contains("Service temporarily unavailable"));
}

#[test]
fn present_html_is_kept() {
    assert_eq!(html_or_default(Some(String::from("<p>x</p>"))), "<p>x</p>");
}

#[test]
fn csp_with_unsafe_inline_ignores_hashes() {
    let js = vec![String::from("'sha256-aaa'")];
    let css = vec![String::from("'sha256-bbb'")];
    assert_eq!(
        build_csp(true, &js, &css),
        "default-src 'self'; script-src 'unsafe-inline'; style-src 'unsafe-inline';"
    );
}

#[test]
fn csp_joins_hashes_in_order() {
    let js = vec![String::from("'sha256-aaa'"), String::from("'sha256-bbb'")];
    let css = vec![String::from("'sha256-ccc'")];
    assert_eq!(
        build_csp(false, &js, &css),
        "default-src 'self'; script-src 'sha256-aaa' 'sha256-bbb'; style-src 'sha256-ccc';"
    );
}

#[test]
fn csp_without_hashes_says_none() {
    let none: Vec<String> = Vec::new();
    assert_eq!(
        build_csp(false, &none, &none),
        "default-src 'self'; script-src 'none'; style-src 'none';"
    );
}
