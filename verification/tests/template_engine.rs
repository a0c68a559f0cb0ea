use sstatic::template::{Tag, Template};

#[test]
fn render_substitutes_host_and_user_agent() {
    let (template, _, _) = Template::new(String::from("<p>{{ host }}</p>"), None, None).unwrap();
    let page = template.render(String::from("example.com"), String::from("ua"));
    assert_eq!(page, "<p>example.com</p>");
}

#[test]
fn render_substitutes_both_tokens() {
    let (template, _, _) =
        Template::new(String::from("{{ host }}|{{ user-agent }}"), None, None).unwrap();
    let page = template.render(String::from("h"), String::from("u"));
    assert_eq!(page, "h|u");
}

#[test]
fn unrelated_placeholders_stay_intact() {
    let source = String::from("<p>{{ host }} and {{ something-else }}</p>");
    let (template, js_hashes, css_hashes) = Template::new(source.clone(), None, None).unwrap();
    assert_eq!(template.text, source);
    assert!(js_hashes.is_empty());
    assert!(css_hashes.is_empty());
}

#[test]
fn css_placeholder_is_replaced_case_insensitively() {
    let css = vec![String::from("body{color:red;}")];
    let (template, _, css_hashes) =
        Template::new(String::from("<head>{{ CSS }}</head>"), Some(css), None).unwrap();
    assert_eq!(
        template.text,
        "<head><style>body{color:red;}</style></head>"
    );
    assert_eq!(css_hashes.len(), 1);
}

#[test]
fn js_placeholder_is_replaced() {
    let js = vec![String::from("var x=1;")];
    let (template, js_hashes, _) =
        Template::new(String::from("<body>{{ js }}</body>"), None, Some(js)).unwrap();
    assert_eq!(template.text, "<body><script>var x=1;</script></body>");
    assert_eq!(js_hashes.len(), 1);
}

#[test]
fn one_hash_per_block_in_document_order() {
    let js = vec![String::from("var a=1;"), String::from("var b=2;")];
    let (_, js_hashes, css_hashes) =
        Template::new(String::from("{{ js }}"), None, Some(js)).unwrap();
    assert_eq!(js_hashes.len(), 2);
    assert!(css_hashes.is_empty());
    let first = data_encoding::BASE64
        .encode(ring::digest::digest(&ring::digest::SHA256, b"var a=1;").as_ref());
    let second = data_encoding::BASE64
        .encode(ring::digest::digest(&ring::digest::SHA256, b"var b=2;").as_ref());
    assert_eq!(js_hashes[0], format!("'sha256-{}'", first));
    assert_eq!(js_hashes[1], format!("'sha256-{}'", second));
}

#[test]
fn hashes_cover_blocks_already_in_the_source() {
    let source = String::from("<style>p { color : blue ; }</style>");
    let (template, js_hashes, css_hashes) = Template::new(source, None, None).unwrap();
    assert!(js_hashes.is_empty());
    assert_eq!(css_hashes.len(), 1);
    let inner_start = template.text.find("<style>").unwrap() + "<style>".len();
    let inner_end = template.text.find("</style>").unwrap();
    let inner = &template.text[inner_start..inner_end];
    let digest = data_encoding::BASE64
        .encode(ring::digest::digest(&ring::digest::SHA256, inner.as_bytes()).as_ref());
    assert_eq!(css_hashes[0], format!("'sha256-{}'", digest));
}

#[test]
fn minification_matches_the_minifier_crate() {
    let text = String::from("<script>var x = 1 ;\nvar y = 2 ;</script>");
    let once = sstatic::template::minimize(&text, Tag::Script);
    let expected = minifier::js::minify("var x = 1 ;\nvar y = 2 ;").unwrap().to_string();
    assert_eq!(once, format!("<script>{}</script>", expected));
    assert_ne!(once, text);
}

#[test]
fn minifying_twice_equals_minifying_once() {
    let script = String::from("<script>var  long_name  =  1 ;\nvar other = long_name + 2 ;</script>");
    let once = sstatic::template::minimize(&script, Tag::Script);
    let twice = sstatic::template::minimize(&once, Tag::Script);
    assert_eq!(once, twice);

    let style = String::from("<style>p  {  color :  red ;  }</style>");
    let once_css = sstatic::template::minimize(&style, Tag::Style);
    let twice_css = sstatic::template::minimize(&once_css, Tag::Style);
    assert_eq!(once_css, twice_css);
}

#[test]
fn placeholder_spanning_lines_is_not_substituted() {
    let source = String::from("{{ j\ns }}");
    let (template, js_hashes, _) =
        Template::new(source.clone(), None, Some(vec![String::from("x")])).unwrap();
    assert_eq!(template.text, source);
    assert!(js_hashes.is_empty());
}

#[test]
fn render_tokens_are_exact_literals() {
    let (template, _, _) = Template::new(String::from("{{ HOST }}"), None, None).unwrap();
    let page = template.render(String::from("example.com"), String::from("ua"));
    assert_eq!(page, "{{ HOST }}");
}

#[test]
fn blocks_are_wrapped_in_input_order() {
    let css = vec![String::from("a{x:1}"), String::from("b{y:2}")];
    let (template, _, css_hashes) =
        Template::new(String::from("{{ css }}"), Some(css), None).unwrap();
    assert_eq!(
        template.text,
        "<style>a{x:1}</style><style>b{y:2}</style>"
    );
    assert_eq!(css_hashes.len(), 2);
}

#[test]
fn tag_names() {
    assert_eq!(Tag::Script.as_str(), "script");
    assert_eq!(Tag::Style.as_str(), "style");
}

#[test]
fn tags_match_case_insensitively_with_internal_whitespace() {
    let text = String::from("< SCRIPT >var x = 1 ;< / script >");
    let out = sstatic::template::minimize(&text, Tag::Script);
    let expected = minifier::js::minify("var x = 1 ;").unwrap().to_string();
    assert_eq!(out, format!("<script>{}</script>", expected));
}

#[test]
fn newline_surviving_minification_sets_the_flag() {
    let (template, _, _) = Template::new(
        String::from("<style>a{color:red}\nb{color:blue}</style>"),
        None,
        None,
    )
    .unwrap();
    let survived = {
        let start = template.text.find("<style>").unwrap() + "<style>".len();
        let end = template.text.find("</style>").unwrap();
        template.text[start..end].contains('\n')
    };
    assert_eq!(template.has_unminified_newline, survived);
    let (clean, _, _) =
        Template::new(String::from("<style>a{color:red}</style>"), None, None).unwrap();
    assert!(!clean.has_unminified_newline);
}

#[test]
fn get_hashes_reads_a_compiled_text() {
    let text = String::from("<script>a</script><script>b</script>");
    let hashes = sstatic::template::get_hashes(&text, Tag::Script);
    assert_eq!(hashes.len(), 2);
    let first = data_encoding::BASE64
        .encode(ring::digest::digest(&ring::digest::SHA256, b"a").as_ref());
    assert_eq!(hashes[0], format!("'sha256-{}'", first));
}
