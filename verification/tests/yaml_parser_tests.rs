use rust_markdown_lsp::parser::markdown::markdown_parser;
use rust_markdown_lsp::parser::yaml::{frontmatter_parser, yaml_parser, Frontmatter, Yaml};
use rust_markdown_lsp::parser::{MarkdownNode, Source};

fn entries(src: &Source, fm: &Frontmatter) -> Vec<(String, Vec<String>, bool)> {
    fm.0.iter()
        .map(|(key, value)| match value {
            Yaml::String(v) => (src.text_of(*key), vec![src.text_of(*v)], false),
            Yaml::List(items) => (
                src.text_of(*key),
                items.iter().map(|i| src.text_of(*i)).collect(),
                true,
            ),
        })
        .collect()
}

#[test]
fn test_yaml_parsing() {
    let input = "---\nid: some-id\ntags: one\n---";
    let src = Source::new(input);
    let out = yaml_parser(&src);
    assert!(!out.has_errors());
    let fm = out.output.expect("front matter");
    assert_eq!(
        entries(&src, &fm),
        vec![
            ("id".to_string(), vec!["some-id".to_string()], false),
            ("tags".to_string(), vec!["one".to_string()], false),
        ]
    );
}

#[test]
fn test_yaml_parsing_with_list() {
    let input = "---\nid: some-id\ntags:\n  - one\n  - two\n---";
    let src = Source::new(input);
    let out = yaml_parser(&src);
    assert!(!out.has_errors());
    let fm = out.output.expect("front matter");
    assert_eq!(
        entries(&src, &fm),
        vec![
            ("id".to_string(), vec!["some-id".to_string()], false),
            ("tags".to_string(), vec!["one".to_string(), "two".to_string()], true),
        ]
    );
}

#[test]
fn quoted_values_keep_what_unquoted_ones_may_not_hold() {
    let input = "---\ntitle: \"a: b # c\"\n---\n";
    let src = Source::new(input);
    let fm = yaml_parser(&src).output.expect("front matter");
    assert_eq!(
        entries(&src, &fm),
        vec![("title".to_string(), vec!["a: b # c".to_string()], false)]
    );
}

#[test]
fn text_without_front_matter_is_refused() {
    assert!(yaml_parser(&Source::new("# Title\n")).output.is_none());
    assert!(yaml_parser(&Source::new("---\n---")).output.is_none());
    assert!(yaml_parser(&Source::new("---\nid: 1\n")).output.is_none());
    let trailing = yaml_parser(&Source::new("---\nid: 1\n---\ntext"));
    assert!(trailing.output.is_none());
    assert!(trailing.has_errors());
}

#[test]
fn front_matter_comes_before_the_body() {
    let input = "---\nid: some-id\n---\n# Title\n";
    let src = Source::new(input);
    let (fm, body_start) = frontmatter_parser(&src).expect("front matter");
    assert_eq!(entries(&src, &fm).len(), 1);
    assert_eq!(body_start, 20);
    let parsed = markdown_parser(&src).output.expect("a note");
    assert!(parsed.frontmatter.is_some());
    assert_eq!(parsed.body.len(), 1);
    match &parsed.body[0].0 {
        MarkdownNode::Header { level, content } => {
            assert_eq!(*level, 1);
            assert_eq!(src.text_of(*content), "Title");
        }
        other => panic!("not a header: {:?}", other),
    }
    assert!(frontmatter_parser(&Source::new("# Title\n")).is_none());
}
