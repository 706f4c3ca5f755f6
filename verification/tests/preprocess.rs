use svelte_compiler::diagnostics::CompileError;
use svelte_compiler::preprocess::{
    apply_tag_preprocessor, find_self_closing_slash, find_tag_open_end, parse_attributes, parse_tag_block,
    render_open_tag, skip_html_comment, PreprocessAttribute, PreprocessAttributeValue, PreprocessOutput,
};

fn chars(s: &str) -> Vec<char> {
    s.chars().collect()
}

fn text(c: &[char]) -> String {
    c.iter().collect()
}

fn value_of<'a>(attrs: &'a [PreprocessAttribute], name: &str) -> Option<&'a PreprocessAttributeValue> {
    attrs.iter().find(|a| text(&a.name) == name).map(|a| &a.value)
}

#[test]
fn finds_open_tag_end_outside_quotes() {
    let src = chars("<script a=\">\" b>x");
    assert_eq!(find_tag_open_end(&src, 0), Some(16));
    assert_eq!(find_tag_open_end(&chars("<script"), 0), None);
}

#[test]
fn finds_self_closing_slash_followed_only_by_space() {
    let src = chars("<style a=\"/\" / >");
    assert_eq!(find_self_closing_slash(&src, 6, 15), Some(13));
    let src = chars("<style a/b>");
    assert_eq!(find_self_closing_slash(&src, 6, 10), None);
}

#[test]
fn skips_to_the_end_of_a_comment() {
    let src = chars("<!-- <script> -->rest");
    assert_eq!(skip_html_comment(&src, 0), 17);
    let open = chars("<!-- never closed");
    assert_eq!(skip_html_comment(&open, 0), open.len());
}

#[test]
fn reads_bare_quoted_and_unquoted_attributes() {
    let attrs = parse_attributes(&chars(" lang=\"ts\" context='module' defer type=module lang=js"));
    assert_eq!(attrs.len(), 4);
    assert_eq!(value_of(&attrs, "lang"), Some(&PreprocessAttributeValue::String(chars("js"))));
    assert_eq!(value_of(&attrs, "context"), Some(&PreprocessAttributeValue::String(chars("module"))));
    assert_eq!(value_of(&attrs, "defer"), Some(&PreprocessAttributeValue::Bool(true)));
    assert_eq!(value_of(&attrs, "type"), Some(&PreprocessAttributeValue::String(chars("module"))));
}

#[test]
fn reads_a_script_block_and_its_content() {
    let src = chars("<p></p><script lang=\"ts\">let a = 1;</script>");
    let block = parse_tag_block(&src, 7, "script").expect("expected block");
    assert_eq!((block.start, block.end), (7, 44));
    assert_eq!(text(&src[block.content_start..block.content_end]), "let a = 1;");
    assert!(!block.self_closing);
    assert_eq!(value_of(&block.attributes, "lang"), Some(&PreprocessAttributeValue::String(chars("ts"))));
    assert!(parse_tag_block(&src, 7, "style").is_none());
    assert!(parse_tag_block(&chars("<scripts></scripts>"), 0, "script").is_none());
}

#[test]
fn reads_a_self_closing_block() {
    let src = chars("<style global />");
    let block = parse_tag_block(&src, 0, "style").expect("expected block");
    assert!(block.self_closing);
    assert_eq!(block.end, src.len());
    assert_eq!(block.content_start, block.content_end);
}

#[test]
fn renders_an_opening_tag() {
    let attrs = vec![
        PreprocessAttribute { name: chars("lang"), value: PreprocessAttributeValue::String(chars("ts")) },
        PreprocessAttribute { name: chars("defer"), value: PreprocessAttributeValue::Bool(true) },
        PreprocessAttribute { name: chars("async"), value: PreprocessAttributeValue::Bool(false) },
    ];
    assert_eq!(text(&render_open_tag(&chars("script"), &attrs)), "<script lang=\"ts\" defer async=\"false\">");
}

#[test]
fn a_preprocessor_that_changes_nothing_keeps_the_source() {
    let src = chars("<script>a</script><!-- <script>b</script> --><style>c</style>");
    let pass = apply_tag_preprocessor(&src, "script", |_c: &[char], _a: &Vec<PreprocessAttribute>| Ok(None))
        .unwrap_or_else(|_| panic!("expected a pass"));
    assert_eq!(pass.code, src);
    assert!(pass.dependencies.is_empty());
}

#[test]
fn replaces_script_content_and_skips_comments() {
    let src = chars("<script lang=\"ts\">a</script><!-- <script>b</script> -->");
    let pass = apply_tag_preprocessor(&src, "script", |c: &[char], _a: &Vec<PreprocessAttribute>| {
        Ok(Some(PreprocessOutput {
            code: c.iter().map(|x| x.to_ascii_uppercase()).collect(),
            dependencies: vec![chars("dep.ts")],
            attributes: None,
        }))
    })
    .unwrap_or_else(|_| panic!("expected a pass"));
    assert_eq!(text(&pass.code), "<script lang=\"ts\">A</script><!-- <script>b</script> -->");
    assert_eq!(pass.dependencies, vec![chars("dep.ts")]);
}

#[test]
fn replaces_attributes_when_the_preprocessor_gives_some() {
    let src = chars("<style lang=\"scss\">a{}</style>");
    let pass = apply_tag_preprocessor(&src, "style", |_c: &[char], _a: &Vec<PreprocessAttribute>| {
        Ok(Some(PreprocessOutput { code: chars("b{}"), dependencies: Vec::new(), attributes: Some(Vec::new()) }))
    })
    .unwrap_or_else(|_| panic!("expected a pass"));
    assert_eq!(text(&pass.code), "<style>b{}</style>");
}

#[test]
fn an_error_from_the_preprocessor_stops_the_pass() {
    let src = chars("<script>a</script>");
    let result = apply_tag_preprocessor(&src, "script", |_c: &[char], _a: &Vec<PreprocessAttribute>| {
        Err(CompileError { code: "preprocess_failed", message: chars("nope"), start: 0, end: 0 })
    });
    match result {
        Err(e) => assert_eq!(e.code, "preprocess_failed"),
        Ok(_) => panic!("expected an error"),
    }
}
