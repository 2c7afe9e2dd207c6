use rust_markdown_lsp::parser::markdown::{
    footnote_definition_parser, footnote_parser, header_parser, image_parser, inline_parser,
    link_parser, markdown_parser, paragraph_parser, plain_text_parser, tag_parser,
    wikilink_parser,
};
use rust_markdown_lsp::parser::{
    ByteSpan, HeaderRef, InlineMarkdownNode, LinkType, MarkdownNode, ParseError, ParseErrorKind,
    ParseOutput, Slice, Source,
};

fn parsed<T: std::fmt::Debug>(out: ParseOutput<T>) -> T {
    match out.into_result() {
        Ok(value) => value,
        Err(errors) => panic!("Parser failed: {:?}", errors),
    }
}

fn fragment(src: &Source, header: Option<HeaderRef>) -> Option<(usize, String)> {
    header.map(|h| (h.level, src.text_of(h.slug)))
}

fn wikilink(src: &Source, node: InlineMarkdownNode) -> (String, Option<String>, Option<(usize, String)>) {
    match node {
        InlineMarkdownNode::Link(LinkType::WikiLink { target, display_text, header }) => (
            src.text_of(target),
            display_text.map(|d| src.text_of(d)),
            fragment(src, header),
        ),
        other => panic!("not a wiki link: {:?}", other),
    }
}

fn link(src: &Source, node: InlineMarkdownNode) -> (String, String, Option<(usize, String)>) {
    match node {
        InlineMarkdownNode::Link(LinkType::InlineLink { text, uri, header }) => {
            (src.text_of(text), src.text_of(uri), fragment(src, header))
        }
        other => panic!("not a link: {:?}", other),
    }
}

fn image(src: &Source, node: InlineMarkdownNode) -> (String, String) {
    match node {
        InlineMarkdownNode::Image { alt_text, uri } => (src.text_of(alt_text), src.text_of(uri)),
        other => panic!("not an image: {:?}", other),
    }
}

fn footnote(src: &Source, node: InlineMarkdownNode) -> String {
    match node {
        InlineMarkdownNode::Footnote(label) => src.text_of(label),
        other => panic!("not a footnote: {:?}", other),
    }
}

#[test]
fn markdown_parser_tests_test_header_parser() {
    let input = "# Header Text\n";
    let src = Source::new(input);
    match parsed(header_parser(&src)) {
        MarkdownNode::Header { level, content } => {
            assert_eq!(level, 1);
            assert_eq!(src.text_of(content), &input[2..13]);
        }
        other => panic!("not a header: {:?}", other),
    }
}

#[test]
fn parser_test_header_parser() {
    let src = Source::new("## Section ##");
    match parsed(header_parser(&src)) {
        MarkdownNode::Header { level, content } => {
            assert_eq!(level, 2);
            assert_eq!(src.text_of(content), "Section");
        }
        other => panic!("not a header: {:?}", other),
    }
}

#[test]
fn test_wikilink_parser_basic() {
    let src = Source::new("[[target]]");
    let node = parsed(wikilink_parser(&src));
    assert_eq!(wikilink(&src, node), ("target".to_string(), None, None));
}

#[test]
fn test_wikilink_parser_newline_and_alias() {
    let src = Source::new("[[tar\nget|alias]]");
    assert!(wikilink_parser(&src).has_errors());
}

#[test]
fn test_wikilink_parser_with_header() {
    let src = Source::new("[[target#header]]");
    let node = parsed(wikilink_parser(&src));
    assert_eq!(
        wikilink(&src, node),
        ("target".to_string(), None, Some((1, "header".to_string())))
    );
}

#[test]
fn test_wikilink_parser_empty_alias() {
    let src = Source::new("[[target|]]");
    let node = parsed(wikilink_parser(&src));
    assert_eq!(wikilink(&src, node), ("target".to_string(), None, None));
}

#[test]
fn test_wikilink_parser_whitespace() {
    let src = Source::new("[[ target | alias ]]");
    let (res, errors) = wikilink_parser(&src).into_output_errors();
    let node = res.expect("the link is accepted");
    assert_eq!(
        wikilink(&src, node),
        ("target".to_string(), Some("alias".to_string()), None)
    );

    assert_eq!(
        errors.first(),
        Some(&ParseError {
            span: ByteSpan { start: 11, end: 18 },
            kind: ParseErrorKind::AliasSpacing
        })
    );
    assert_eq!(
        errors[0].reason(),
        "WikiLink alias contains spaces before or after."
    );
}

#[test]
fn test_link_parser_basic() {
    let src = Source::new("[Link Text](http://example.com)");
    let node = parsed(link_parser(&src));
    assert_eq!(
        link(&src, node),
        ("Link Text".to_string(), "http://example.com".to_string(), None)
    );
}

#[test]
fn test_link_parser_with_header() {
    let src = Source::new("[Link Text](./other_file#Heading)");
    let node = parsed(link_parser(&src));
    assert_eq!(
        link(&src, node),
        (
            "Link Text".to_string(),
            "./other_file".to_string(),
            Some((1, "Heading".to_string()))
        )
    );
}

#[test]
fn test_image_parser_basic() {
    let src = Source::new("![Alt Text](image.png)");
    let node = parsed(image_parser(&src));
    assert_eq!(image(&src, node), ("Alt Text".to_string(), "image.png".to_string()));
}

#[test]
fn test_image_parser_with_spaces() {
    let src = Source::new("![Alt Text with spaces](image with spaces.png)");
    let node = parsed(image_parser(&src));
    assert_eq!(
        image(&src, node),
        ("Alt Text with spaces".to_string(), "image with spaces.png".to_string())
    );
}

#[test]
fn test_image_parser_empty_url() {
    let src = Source::new("![Alt Text]()");
    let node = parsed(image_parser(&src));
    assert_eq!(image(&src, node), ("Alt Text".to_string(), "".to_string()));
}

#[test]
fn test_image_parser_invalid_input() {
    let input = "![](image.png)";
    assert!(image_parser(&Source::new(input)).has_errors());

    let input = "!()";
    assert!(image_parser(&Source::new(input)).has_errors());

    let input = "![Alt Text]image.png";
    assert!(image_parser(&Source::new(input)).has_errors());

    let input = "!Alt Text(image.png)";
    assert!(image_parser(&Source::new(input)).has_errors());

    let input = "![Alt Text] (image.png)";
    assert!(image_parser(&Source::new(input)).has_errors());
}

#[test]
fn test_image_parser_unicode() {
    let src = Source::new("![😀](🚀.png)");
    let node = parsed(image_parser(&src));
    assert_eq!(image(&src, node), ("😀".to_string(), "🚀.png".to_string()));
}

#[test]
fn test_plain_text_parser_skip_image() {
    let input = "println!('Hello World')";
    let src = Source::new(input);
    match parsed(plain_text_parser(&src)) {
        InlineMarkdownNode::PlainText(text) => assert_eq!(src.text_of(text), input),
        other => panic!("not plain text: {:?}", other),
    }
}

#[test]
fn test_footnote_parser_basic() {
    let src = Source::new("[^1]");
    let node = parsed(footnote_parser(&src));
    assert_eq!(footnote(&src, node), "1");
}

#[test]
fn test_footnote_parser_alphabetic() {
    let src = Source::new("[^abc]");
    let node = parsed(footnote_parser(&src));
    assert_eq!(footnote(&src, node), "abc");
}

#[test]
fn test_footnote_parser_alphanumeric() {
    let src = Source::new("[^a1b2]");
    let node = parsed(footnote_parser(&src));
    assert_eq!(footnote(&src, node), "a1b2");
}

#[test]
fn test_footnote_parser_numeric() {
    let src = Source::new("[^123]");
    let node = parsed(footnote_parser(&src));
    assert_eq!(footnote(&src, node), "123");
}

#[test]
fn test_footnote_parser_mixed_case() {
    let src = Source::new("[^aBc12]");
    let node = parsed(footnote_parser(&src));
    assert_eq!(footnote(&src, node), "aBc12");
}

#[test]
fn test_footnote_parser_empty_label() {
    let input = "[^]";
    assert!(footnote_parser(&Source::new(input)).has_errors());
}

#[test]
fn test_footnote_parser_with_space() {
    let input = "[^1 ]";
    assert!(footnote_parser(&Source::new(input)).has_errors());
}

#[test]
fn test_footnote_parser_with_hyphen() {
    let input = "[^1-2]";
    assert!(footnote_parser(&Source::new(input)).has_errors());
}

#[test]
fn test_footnote_parser_with_period() {
    let input = "[^1.]";
    assert!(footnote_parser(&Source::new(input)).has_errors());
}

#[test]
fn test_footnote_parser_double_caret() {
    let input = "[^^]";
    assert!(footnote_parser(&Source::new(input)).has_errors());
}

#[test]
fn test_footnote_parser_no_closing_bracket() {
    let input = "[^1";
    assert!(footnote_parser(&Source::new(input)).has_errors());
}

#[test]
fn test_footnote_parser_no_opening_bracket() {
    let input = "^1]";
    assert!(footnote_parser(&Source::new(input)).has_errors());
}

#[test]
fn test_footnote_parser_no_caret() {
    let input = "[1]";
    assert!(footnote_parser(&Source::new(input)).has_errors());
}

#[test]
fn tag_is_hash_and_alphanumerics() {
    let src = Source::new("#rust2024");
    match parsed(tag_parser(&src)) {
        InlineMarkdownNode::Tag(name) => assert_eq!(src.text_of(name), "rust2024"),
        other => panic!("not a tag: {:?}", other),
    }
    assert!(!tag_parser(&Source::new("#")).has_output());
    assert!(!tag_parser(&Source::new("# x")).has_output());
    let trailing = tag_parser(&Source::new("#a-b"));
    assert!(!trailing.has_output());
    assert_eq!(
        trailing.errors,
        vec![ParseError {
            span: ByteSpan { start: 2, end: 4 },
            kind: ParseErrorKind::TrailingInput
        }]
    );
}

#[test]
fn inline_choice_prefers_the_more_specific_construct() {
    let src = Source::new("![a](b)");
    assert!(matches!(
        parsed(inline_parser(&src)),
        InlineMarkdownNode::Image { .. }
    ));
    let src = Source::new("[[a]]");
    let node = parsed(inline_parser(&src));
    assert_eq!(wikilink(&src, node), ("a".to_string(), None, None));
    let src = Source::new("[^1](x)");
    let node = parsed(inline_parser(&src));
    assert_eq!(link(&src, node), ("^1".to_string(), "x".to_string(), None));
    let src = Source::new("[^1]");
    let node = parsed(inline_parser(&src));
    assert_eq!(footnote(&src, node), "1");
    let failed = inline_parser(&Source::new("[[broken"));
    assert_eq!(failed.output, None);
    assert_eq!(failed.errors[0].kind, ParseErrorKind::InvalidWikiLink);
    assert_eq!(failed.errors[0].span, ByteSpan { start: 0, end: 8 });
}

#[test]
fn link_title_with_spaces_warns() {
    let src = Source::new("[ title ](target)");
    let (res, errors) = link_parser(&src).into_output_errors();
    let node = res.expect("the link is accepted");
    assert_eq!(link(&src, node), ("title".to_string(), "target".to_string(), None));
    assert_eq!(
        errors,
        vec![ParseError {
            span: ByteSpan { start: 1, end: 8 },
            kind: ParseErrorKind::TitleSpacing
        }]
    );
    assert_eq!(errors[0].reason(), "Link title contains spaces before or after");
}

#[test]
fn fragments_may_hold_hashes() {
    let src = Source::new("[a](b#x#y)");
    let node = parsed(link_parser(&src));
    assert_eq!(
        link(&src, node),
        ("a".to_string(), "b".to_string(), Some((1, "x#y".to_string())))
    );
    let src = Source::new("[[t#######x]]");
    let node = parsed(wikilink_parser(&src));
    assert_eq!(
        wikilink(&src, node),
        ("t".to_string(), None, Some((6, "#x".to_string())))
    );
    assert!(wikilink_parser(&Source::new("[[t#]]")).has_errors());
}

#[test]
fn header_levels_and_trimming() {
    let src = Source::new("###   Deep title  ###  ");
    match parsed(header_parser(&src)) {
        MarkdownNode::Header { level, content } => {
            assert_eq!(level, 3);
            assert_eq!(src.text_of(content), "Deep title");
        }
        other => panic!("not a header: {:?}", other),
    }
    let src = Source::new("#######");
    match parsed(header_parser(&src)) {
        MarkdownNode::Header { level, content } => {
            assert_eq!(level, 6);
            assert_eq!(src.text_of(content), "");
        }
        other => panic!("not a header: {:?}", other),
    }
    assert!(!header_parser(&Source::new("no header")).has_output());
    assert!(!header_parser(&Source::new("# a\nb")).has_output());
}

#[test]
fn paragraph_holds_its_inline_nodes_in_order() {
    let input = "see [[note]] and #tag";
    let src = Source::new(input);
    match parsed(paragraph_parser(&src)) {
        MarkdownNode::Paragraph(nodes) => {
            assert_eq!(nodes.len(), 4);
            assert_eq!(nodes[0].0, InlineMarkdownNode::PlainText(Slice { start: 0, end: 4 }));
            assert_eq!(nodes[0].1, ByteSpan { start: 0, end: 4 });
            assert_eq!(nodes[1].1, ByteSpan { start: 4, end: 12 });
            assert_eq!(
                wikilink(&src, nodes[1].0),
                ("note".to_string(), None, None)
            );
            assert_eq!(nodes[2].0, InlineMarkdownNode::PlainText(Slice { start: 12, end: 17 }));
            assert_eq!(nodes[3].0, InlineMarkdownNode::Tag(Slice { start: 18, end: 21 }));
        }
        other => panic!("not a paragraph: {:?}", other),
    }
}

#[test]
fn footnote_definition_runs_to_the_blank_line() {
    let input = "[^n]: the note";
    let src = Source::new(input);
    match parsed(footnote_definition_parser(&src)) {
        MarkdownNode::FootnoteDefinition { id, content } => {
            assert_eq!(src.text_of(id), "n");
            assert_eq!(content.len(), 1);
            match content[0].0 {
                InlineMarkdownNode::PlainText(text) => assert_eq!(src.text_of(text), " the note"),
                other => panic!("not plain text: {:?}", other),
            }
        }
        other => panic!("not a footnote definition: {:?}", other),
    }
    assert!(!footnote_definition_parser(&Source::new("[^n]:")).has_output());
    assert!(!footnote_definition_parser(&Source::new("[^n]: a #")).has_output());
}

#[test]
fn spans_are_in_bytes_and_slices_in_characters() {
    let input = "é [[ü]]";
    let src = Source::new(input);
    let out = parsed(markdown_parser(&src));
    assert_eq!(out.body.len(), 1);
    match &out.body[0].0 {
        MarkdownNode::Paragraph(nodes) => {
            assert_eq!(nodes.len(), 2);
            assert_eq!(nodes[0].1, ByteSpan { start: 0, end: 3 });
            assert_eq!(nodes[1].1, ByteSpan { start: 3, end: 9 });
            assert_eq!(wikilink(&src, nodes[1].0), ("ü".to_string(), None, None));
            assert_eq!(&input[3..9], "[[ü]]");
        }
        other => panic!("not a paragraph: {:?}", other),
    }
    assert_eq!(out.body[0].1, ByteSpan { start: 0, end: 9 });
    assert_eq!(src.byte_len(), 9);
    assert_eq!(src.len(), 7);
}
