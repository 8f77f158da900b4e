use fixmatter::frontmatter::{assemble, blank, decode_block, parse, parse_raw, render, DecodeError};

const EXAMPLE: &'_ str = "\
---
hello: world
---
# Title
";

const EXAMPLE_EMPTY_YFM: &'_ str = "\
---
---
# Title
";

const EXAMPLE_ONLY_YFM: &'_ str = "\
---
hello: world
---
";

const EXAMPLE_NO_YFM: &'_ str = "";

fn hello_world() -> serde_yaml::Value {
    let mut expected = serde_yaml::Mapping::new();
    expected.insert("hello".into(), "world".into());
    serde_yaml::Value::Mapping(expected)
}

#[test]
fn parses_example_raw() {
    let (yfm, content) = parse_raw(EXAMPLE);
    assert_eq!(Some("hello: world\n"), yfm);
    assert_eq!("# Title\n", content);
}

#[test]
fn parses_empty_yfm_raw() {
    let (yfm, content) = parse_raw(EXAMPLE_EMPTY_YFM);
    assert_eq!(Some(""), yfm);
    assert_eq!("# Title\n", content);
}

#[test]
fn parses_only_yfm_raw() {
    let (yfm, content) = parse_raw(EXAMPLE_ONLY_YFM);
    assert_eq!(Some("hello: world\n"), yfm);
    assert_eq!("", content);
}

#[test]
fn parses_no_yfm_raw() {
    let (yfm, content) = parse_raw(EXAMPLE_NO_YFM);
    assert_eq!(None, yfm);
    assert_eq!("", content);
}

#[test]
fn parses_example() {
    let (yfm, content) = parse(EXAMPLE);
    let yfm = yfm.expect("should be present").expect("should parse");
    assert_eq!(hello_world(), yfm);
    assert_eq!("# Title\n", content);
}

#[test]
fn parses_empty_yfm() {
    let (yfm, content) = parse(EXAMPLE_EMPTY_YFM);
    let _ = yfm
        .expect("should be present")
        .expect_err("should not parse empty string");
    assert_eq!("# Title\n", content);
}

#[test]
fn parses_only_yfm() {
    let (yfm, content) = parse(EXAMPLE_ONLY_YFM);
    let yfm = yfm.expect("should be present").expect("should parse");
    assert_eq!(hello_world(), yfm);
    assert_eq!("", content);
}

#[test]
fn parses_no_yfm() {
    let (yfm, content) = parse(EXAMPLE_NO_YFM);
    assert!(yfm.is_none());
    assert_eq!("", content);
}

#[test]
fn delimiter_splits_block_and_body() {
    assert_eq!((Some("A: 1\n"), "BODY"), parse_raw("---\nA: 1\n---\nBODY"));
}

#[test]
fn adjacent_delimiters_give_empty_block_that_does_not_decode() {
    assert_eq!((Some(""), "BODY"), parse_raw("---\n---\nBODY"));
    assert!(matches!(decode_block(""), Err(DecodeError::Blank)));
}

#[test]
fn no_leading_delimiter_means_no_frontmatter() {
    assert_eq!((None, "BODY"), parse_raw("BODY"));
}

#[test]
fn unclosed_delimiter_means_no_frontmatter() {
    assert_eq!((None, "---\nunclosed"), parse_raw("---\nunclosed"));
}

#[test]
fn later_delimiters_in_body_are_kept() {
    assert_eq!((None, "x\n---\na\n---\n"), parse_raw("x\n---\na\n---\n"));
    assert_eq!(
        (Some("a: 1\n"), "b\n---\nc\n"),
        parse_raw("---\na: 1\n---\nb\n---\nc\n")
    );
}

#[test]
fn closing_delimiter_may_sit_inside_a_line() {
    assert_eq!((Some("a: 1\nx"), "body"), parse_raw("---\na: 1\nx---\nbody"));
}

#[test]
fn non_ascii_text_splits_on_the_delimiters() {
    assert_eq!(
        (Some("titre: été\n"), "Ünïcødé ✓\n"),
        parse_raw("---\ntitre: été\n---\nÜnïcødé ✓\n")
    );
}

#[test]
fn delimiter_without_line_break_is_no_frontmatter() {
    assert_eq!((None, "---"), parse_raw("---"));
}

#[test]
fn blank_text_is_recognised() {
    assert!(blank(""));
    assert!(blank(" \t\r\n"));
    assert!(!blank(" a "));
}

#[test]
fn blank_block_does_not_decode() {
    assert!(matches!(decode_block("   \n  "), Err(DecodeError::Blank)));
}

#[test]
fn invalid_yaml_gives_syntax_error() {
    assert!(matches!(decode_block("a: [1, 2\n"), Err(DecodeError::Syntax(_))));
}

#[test]
fn valid_block_decodes() {
    assert_eq!(hello_world(), decode_block("hello: world\n").unwrap());
}

#[test]
fn assemble_with_block() {
    assert_eq!("---\na: 1\n---\nbody\n", assemble(Some("a: 1\n"), "body\n"));
}

#[test]
fn assemble_without_block() {
    assert_eq!("body\n", assemble(None, "body\n"));
}

#[test]
fn render_encodes_metadata() {
    let out = render(Some(&hello_world()), "# Title\n").unwrap();
    assert_eq!("---\nhello: world\n---\n# Title\n", out);
}

#[test]
fn render_without_metadata_is_the_body() {
    assert_eq!("# Title\n", render(None, "# Title\n").unwrap());
}

#[test]
fn unchanged_metadata_renders_byte_identical() {
    let doc = "---\nb: 1\na:\n- x\n- true\nc: null\n---\nbody\n";
    let (meta, body) = parse(doc);
    let meta = meta.unwrap().unwrap();
    assert_eq!(doc, render(Some(&meta), body).unwrap());
}

#[test]
fn assembled_document_splits_back() {
    for (block, body) in [("a: 1\n", "body\n"), ("", ""), ("x: été\n", "---\nmore\n")] {
        let doc = assemble(Some(block), body);
        assert_eq!((Some(block), body), parse_raw(&doc));
    }
}
