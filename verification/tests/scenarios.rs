use rust_markdown_lsp::document::references::ReferenceKind;
use rust_markdown_lsp::document::Document;
use rust_markdown_lsp::lsp::code_action::{plan_extraction, process_code_action};
use rust_markdown_lsp::lsp::helpers::{extract_header_section, normalize_header_content};
use rust_markdown_lsp::lsp::server::Server;
use rust_markdown_lsp::lsp_types::code_action::{
    CodeActionContext, CodeActionKind, CodeActionOrCommand, CodeActionParams,
};
use rust_markdown_lsp::lsp_types::workspace::{
    DocumentChangeOperation, DocumentChanges, ResourceOp,
};
use rust_markdown_lsp::lsp_types::{
    DiagnosticSeverity, Position, Range, TextDocumentIdentifier,
};
use rust_markdown_lsp::parser::markdown::markdown_parser;
use rust_markdown_lsp::parser::{
    ByteSpan, InlineMarkdownNode, MarkdownNode, ParseErrorKind, Source,
};
use rust_markdown_lsp::uri::URI;

#[test]
fn header_parse() {
    let src = Source::new("# Hello\n");
    let out = markdown_parser(&src);
    assert!(!out.has_errors());
    let parsed = out.output.unwrap();
    assert!(parsed.frontmatter.is_none());
    assert_eq!(parsed.body.len(), 1);
    assert_eq!(parsed.body[0].1, ByteSpan { start: 0, end: 7 });
    match &parsed.body[0].0 {
        MarkdownNode::Header { level, content } => {
            assert_eq!(*level, 1);
            assert_eq!(src.text_of(*content), "Hello");
        }
        other => panic!("not a header: {:?}", other),
    }

    let document = Document::new(URI::from_str("file:///hello.md"), "# Hello\n", 0).unwrap();
    assert!(document.diagnostics.is_empty());
    assert_eq!(document.references.len(), 1);
    assert_eq!(
        document.references[0].kind,
        ReferenceKind::Header { level: 1, content: "Hello".to_string() }
    );
    assert_eq!(
        document.references[0].range,
        Range::new(Position::new(0, 0), Position::new(0, 7))
    );
}

#[test]
fn wiki_link_with_header_and_alias() {
    let text = "[[notes#Topic|see this]]";
    let document = Document::new(URI::from_str("file:///a.md"), text, 0).unwrap();
    assert!(document.diagnostics.is_empty());
    assert_eq!(document.references.len(), 1);
    assert_eq!(
        document.references[0].kind,
        ReferenceKind::WikiLink {
            target: "notes".to_string(),
            alias: Some("see this".to_string()),
            header: Some("Topic".to_string()),
        }
    );
    assert_eq!(
        document.references[0].range,
        Range::new(Position::new(0, 0), Position::new(0, 24))
    );

    let padded = Document::new(URI::from_str("file:///a.md"), "[[notes#Topic| see this ]]", 0)
        .unwrap();
    assert_eq!(padded.references[0].kind, document.references[0].kind);
    assert_eq!(padded.diagnostics.len(), 1);
    assert_eq!(padded.diagnostics[0].severity, DiagnosticSeverity::Warning);
    assert_eq!(
        padded.diagnostics[0].message,
        "WikiLink alias contains spaces before or after."
    );
    assert_eq!(
        padded.diagnostics[0].range,
        Range::new(Position::new(0, 14), Position::new(0, 24))
    );
}

#[test]
fn error_recovery() {
    let text = "[unterminated link\nokay\n";
    let src = Source::new(text);
    let out = markdown_parser(&src);
    let parsed = out.output.unwrap();
    assert_eq!(parsed.body.len(), 2);
    assert_eq!(parsed.body[0].0, MarkdownNode::Invalid);
    assert_eq!(parsed.body[0].1, ByteSpan { start: 0, end: 19 });
    match &parsed.body[1].0 {
        MarkdownNode::Paragraph(nodes) => {
            assert_eq!(nodes.len(), 1);
            match nodes[0].0 {
                InlineMarkdownNode::PlainText(t) => assert_eq!(src.text_of(t), "okay\n"),
                other => panic!("not plain text: {:?}", other),
            }
        }
        other => panic!("not a paragraph: {:?}", other),
    }
    assert_eq!(out.errors.len(), 1);
    assert_eq!(out.errors[0].span, parsed.body[0].1);
    assert_eq!(out.errors[0].kind, ParseErrorKind::InvalidLink);

    let document = Document::new(URI::from_str("file:///a.md"), text, 0).unwrap();
    assert_eq!(document.diagnostics.len(), 1);
    assert_eq!(
        document.diagnostics[0].range,
        Range::new(Position::new(0, 0), Position::new(1, 0))
    );
    assert_eq!(document.diagnostics[0].severity, DiagnosticSeverity::Warning);
    assert_eq!(document.diagnostics[0].source, "parser");
    assert_eq!(document.diagnostics[0].message, "Link format is invalid.");
    assert!(document.references.is_empty());
}

#[test]
fn a_bad_last_line_costs_that_line_only() {
    let text = "# Title\nsee [[note]]\n[[broken";
    let document = Document::new(URI::from_str("file:///a.md"), text, 0).unwrap();
    assert_eq!(document.references.len(), 2);
    assert_eq!(document.diagnostics.len(), 1);
    assert_eq!(document.diagnostics[0].message, "WikiLink format is invalid.");
    assert_eq!(
        document.diagnostics[0].range,
        Range::new(Position::new(2, 0), Position::new(2, 8))
    );
}

#[test]
fn header_normalization() {
    assert_eq!(normalize_header_content("Example & Header"), "example-header");
    assert_eq!(normalize_header_content("Example  Header"), "example-header");
    assert_eq!(normalize_header_content("Example-Header"), "example-header");
    assert_eq!(normalize_header_content("--Édition  spéciale!--"), "édition-spéciale");
    assert_eq!(normalize_header_content("!!!"), "");
    assert_eq!(normalize_header_content(""), "");
}

const NESTED: &str = "# A\nx\n## B\ny\n### C\nz\n## D\n";

#[test]
fn header_section_extraction() {
    let document = Document::new(URI::from_str("file:///notes/doc.md"), NESTED, 0).unwrap();
    let (c, range) = extract_header_section("C", &document.references, &document.content);
    assert_eq!(c.as_deref(), Some("### C\nz\n"));
    assert_eq!(range, Range::new(Position::new(4, 0), Position::new(6, 0)));
    let (a, _) = extract_header_section("A", &document.references, &document.content);
    assert_eq!(a.as_deref(), Some(NESTED));
    let (b, _) = extract_header_section("B", &document.references, &document.content);
    assert_eq!(b.as_deref(), Some("## B\ny\n### C\nz\n"));
    let (d, range) = extract_header_section("#d", &document.references, &document.content);
    assert_eq!(d.as_deref(), Some("## D\n"));
    assert_eq!(range, Range::new(Position::new(6, 0), Position::new(8, 0)));
}

fn code_action_params(uri: &str, start: Position, end: Position) -> CodeActionParams {
    CodeActionParams {
        text_document: TextDocumentIdentifier { uri: URI::from_str(uri) },
        range: Range::new(start, end),
        context: CodeActionContext { diagnostics: vec![] },
    }
}

#[test]
fn extract_code_action() {
    let mut server = Server::new();
    server
        .documents
        .open_document(URI::from_str("file:///notes/doc.md"), 1, NESTED)
        .unwrap();
    let cursor = Position::new(2, 1);
    let params = code_action_params("file:///notes/doc.md", cursor, cursor);
    let actions = process_code_action(&server, &params, 1700001234567)
        .unwrap()
        .unwrap();
    assert_eq!(actions.len(), 1);
    let action = match &actions[0] {
        CodeActionOrCommand::CodeAction(action) => action,
        other => panic!("not a code action: {:?}", other),
    };
    assert_eq!(action.title, "Extract header & section");
    assert_eq!(action.kind, Some(CodeActionKind::RefactorExtract));
    assert_eq!(action.kind.unwrap().as_str(), "refactor.extract");
    assert!(action.command.is_none());
    let edit = action.edit.as_ref().unwrap();
    let steps = match edit.document_changes.as_ref().unwrap() {
        DocumentChanges::Operations(steps) => steps,
        other => panic!("not a list of operations: {:?}", other),
    };
    assert_eq!(steps.len(), 3);
    match &steps[0] {
        DocumentChangeOperation::Op(ResourceOp::Create(create)) => {
            assert_eq!(create.uri.as_str(), "file:///notes/234567.md");
        }
        other => panic!("not a creation: {:?}", other),
    }
    match &steps[1] {
        DocumentChangeOperation::Edit(edit) => {
            assert_eq!(edit.text_document.text_document.uri.as_str(), "file:///notes/234567.md");
            assert_eq!(edit.edits.len(), 1);
            assert_eq!(edit.edits[0].range, Range::new(Position::new(0, 0), Position::new(0, 0)));
            assert_eq!(edit.edits[0].new_text, "## B\ny\n### C\nz\n");
        }
        other => panic!("not an edit: {:?}", other),
    }
    match &steps[2] {
        DocumentChangeOperation::Edit(edit) => {
            assert_eq!(edit.text_document.text_document.uri.as_str(), "file:///notes/doc.md");
            assert_eq!(edit.edits.len(), 1);
            assert_eq!(edit.edits[0].range, Range::new(Position::new(2, 0), Position::new(6, 0)));
            assert_eq!(edit.edits[0].new_text, "[B](./234567.md)\n\n");
        }
        other => panic!("not an edit: {:?}", other),
    }
}

#[test]
fn code_actions_are_for_cursors_on_headers() {
    let mut server = Server::new();
    server
        .documents
        .open_document(URI::from_str("file:///notes/doc.md"), 1, "# A\nsee [[b]]\n")
        .unwrap();
    let uri = "file:///notes/doc.md";
    let selection = code_action_params(uri, Position::new(0, 0), Position::new(0, 2));
    assert_eq!(process_code_action(&server, &selection, 7).unwrap().unwrap().len(), 0);
    let on_link = code_action_params(uri, Position::new(1, 5), Position::new(1, 5));
    assert_eq!(process_code_action(&server, &on_link, 7).unwrap().unwrap().len(), 0);
    let on_text = code_action_params(uri, Position::new(1, 1), Position::new(1, 1));
    assert_eq!(process_code_action(&server, &on_text, 7).unwrap().unwrap().len(), 0);
    let missing = code_action_params("file:///gone.md", Position::new(0, 0), Position::new(0, 0));
    assert!(process_code_action(&server, &missing, 7).is_err());
    let plan = plan_extraction(&server, &URI::from_str(uri), Position::new(0, 1), 5)
        .unwrap()
        .unwrap();
    assert_eq!(plan.new_uri.as_str(), "file:///notes/5.md");
    assert_eq!(plan.section, "# A\nsee [[b]]\n");
    assert_eq!(plan.link, "[A](./5.md)\n\n");
    let stray = URI::from_str("untitled:1");
    server.documents.open_document(stray.clone(), 1, "# A\n").unwrap();
    let plan = plan_extraction(&server, &stray, Position::new(0, 1), 5).unwrap().unwrap();
    assert_eq!(plan.new_uri.as_str(), "file:////5.md");
    assert_eq!(plan.link, "[A](file:////5.md)\n\n");
}

#[test]
fn carriage_returns_end_lines_too() {
    let text = "# A\r\nsee [[b]]\r\n## B\r\n";
    let document = Document::new(URI::from_str("file:///a.md"), text, 0).unwrap();
    assert!(document.diagnostics.is_empty());
    assert_eq!(document.references.len(), 3);
    assert_eq!(
        document.references[0].kind,
        ReferenceKind::Header { level: 1, content: "A".to_string() }
    );
    assert_eq!(document.references[0].range, Range::new(Position::new(0, 0), Position::new(0, 3)));
    assert_eq!(document.references[1].range, Range::new(Position::new(1, 4), Position::new(1, 9)));
    assert_eq!(document.references[2].range, Range::new(Position::new(2, 0), Position::new(2, 4)));
    let (section, range) = extract_header_section("A", &document.references, &document.content);
    assert_eq!(section.as_deref(), Some(text));
    assert_eq!(range, Range::new(Position::new(0, 0), Position::new(4, 0)));
}

#[test]
fn references_after_front_matter_keep_their_places() {
    let text = "---\ntitle: Note\ntags:\n  - a\n  - b\n---\n# Häad\n[[x|é]] [y](z#w)\n";
    let document = Document::new(URI::from_str("file:///a.md"), text, 0).unwrap();
    assert!(document.diagnostics.is_empty());
    assert_eq!(document.references.len(), 3);
    assert_eq!(
        document.references[0].kind,
        ReferenceKind::Header { level: 1, content: "Häad".to_string() }
    );
    assert_eq!(document.references[0].range, Range::new(Position::new(6, 0), Position::new(6, 7)));
    assert_eq!(
        document.references[1].kind,
        ReferenceKind::WikiLink {
            target: "x".to_string(),
            alias: Some("é".to_string()),
            header: None,
        }
    );
    assert_eq!(document.references[1].range, Range::new(Position::new(7, 0), Position::new(7, 8)));
    assert_eq!(
        document.references[2].kind,
        ReferenceKind::Link {
            target: "z".to_string(),
            alt_text: "y".to_string(),
            title: None,
            header: Some("w".to_string()),
        }
    );
    assert_eq!(document.references[2].range, Range::new(Position::new(7, 9), Position::new(7, 17)));
    let span = document.lsp_range_to_byte(&document.references[2].range).unwrap();
    assert_eq!(&text[span.start..span.end], "[y](z#w)");
    let span = document.lsp_range_to_byte(&document.references[1].range).unwrap();
    assert_eq!(&text[span.start..span.end], "[[x|é]]");
}

#[test]
fn only_paragraphs_and_headers_give_references() {
    let text = "[^n]: see [[a]]\n\n![img](pic.png) #tag [^n] [[b]]\n";
    let document = Document::new(URI::from_str("file:///a.md"), text, 0).unwrap();
    assert!(document.diagnostics.is_empty());
    assert_eq!(document.references.len(), 1);
    assert_eq!(
        document.references[0].kind,
        ReferenceKind::WikiLink { target: "b".to_string(), alias: None, header: None }
    );
}
