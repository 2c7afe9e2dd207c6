use rust_markdown_lsp::config::{
    Config, DiagnosticsConfig, LinkConfig, LinkGenerationStyle, MarkdownConfig, ServerConfig,
};
use rust_markdown_lsp::document::references::{Reference, ReferenceKind};
use rust_markdown_lsp::error::LspError;
use rust_markdown_lsp::lsp::references::{headers_are_compatible, normalized_headers_match};
use rust_markdown_lsp::lsp_types::code_action::{CodeAction, CodeActionOrCommand};
use rust_markdown_lsp::lsp_types::workspace::{
    CreateFile, DocumentChangeOperation, OptionalVersionedTextDocumentIdentifier, ResourceOp,
    TextDocumentEdit, TextEdit,
};
use rust_markdown_lsp::lsp_types::{Command, Location, Position, Range};
use rust_markdown_lsp::parser::{ByteSpan, ParseError, ParseErrorKind, ParseOutput};
use rust_markdown_lsp::message::{
    Method, Notification, Request, Response, REQUEST_FAILED, RPC_VERSION,
};
use rust_markdown_lsp::path::{
    combine_and_normalize, dotted_path, find_relative_path, get_parent_path, is_markdown_path,
};
use rust_markdown_lsp::rpc::{content_length, encode_message, frame_length};
use rust_markdown_lsp::scan::{class_holds, scan, scan_back, trim_bounds, CharClass};
use rust_markdown_lsp::text::{decimal_chars, str_eq, substring, to_chars};
use rust_markdown_lsp::uri::URI;

#[test]
fn uris_and_paths() {
    let uri = URI::from_str("file:///a/b/c.md");
    assert_eq!(uri.as_str(), "file:///a/b/c.md");
    assert_eq!(uri.to_path_buf(), "/a/b/c.md");
    assert_eq!(uri.to_file_path().as_deref(), Some("/a/b/c.md"));
    assert_eq!(URI::from_str("/a/b").to_file_path(), None);
    assert_eq!(URI::from_str("/a/b").to_path_buf(), "/a/b");
    assert_eq!(URI::from_file_path("/a/b").unwrap().as_str(), "file:///a/b");
    assert_eq!(URI::from_file_path("a/b"), None);
    assert_eq!(URI::from_file_path(""), None);
    assert!(uri.same_as(&uri.duplicate()));
    assert!(!uri.same_as(&URI::from_str("file:///a/b/C.md")));
}

#[test]
fn parent_paths() {
    assert_eq!(get_parent_path(&URI::from_str("file:///a/b/c.md")).unwrap(), "/a/b");
    assert_eq!(get_parent_path(&URI::from_str("file:///c.md")).unwrap(), "/");
    assert_eq!(get_parent_path(&URI::from_str("file:///a/b/")).unwrap(), "/a/b");
    assert_eq!(get_parent_path(&URI::from_str("c.md")).unwrap(), "/");
    assert_eq!(get_parent_path(&URI::from_str("file:///")).unwrap(), "/");
}

#[test]
fn notes_are_files_with_the_extension_md() {
    assert!(is_markdown_path("/w/a.md"));
    assert!(is_markdown_path("a.b.md"));
    assert!(!is_markdown_path("/w/a.MD"));
    assert!(!is_markdown_path("/w/a.mdx"));
    assert!(!is_markdown_path("/w/.md"));
    assert!(!is_markdown_path("/w/md"));
    assert!(!is_markdown_path("/w/a.md/"));
    assert!(!is_markdown_path(""));
}

#[test]
fn combining_resolves_dots() {
    let source = URI::from_str("file:///w/docs/a.md");
    let go = |target: &str| combine_and_normalize(&source, target).map(|u| u.0);
    assert_eq!(go("b.md").unwrap(), "file:///w/docs/b.md");
    assert_eq!(go("./b.md").unwrap(), "file:///w/docs/b.md");
    assert_eq!(go("../b.md").unwrap(), "file:///w/b.md");
    assert_eq!(go("../../../../b.md").unwrap(), "file:///b.md");
    assert_eq!(go("x//y/./../z/").unwrap(), "file:///w/docs/x/z");
    assert_eq!(go("..").unwrap(), "file:///w");
    assert_eq!(go("../..").unwrap(), "file:///");
    assert_eq!(go("/abs/./x").unwrap(), "file:///abs/x");
    assert_eq!(go("").unwrap(), "file:///w/docs");
    assert_eq!(
        combine_and_normalize(&URI::from_str("w/docs/a.md"), "b.md"),
        Err(LspError::ResolutionFailed)
    );
}

#[test]
fn relative_paths_between_documents() {
    let rel = |s: &str, t: &str| find_relative_path(&URI::from_str(s), &URI::from_str(t));
    assert_eq!(rel("file:///w/a.md", "file:///w/b.md").unwrap(), "./b.md");
    assert_eq!(rel("file:///w/a.md", "file:///w/sub/b.md").unwrap(), "./sub/b.md");
    assert_eq!(rel("file:///w/sub/a.md", "file:///w/b.md").unwrap(), "../b.md");
    assert_eq!(rel("file:///w/a.md", "file:///w").unwrap(), "./");
    assert_eq!(rel("file:///a.md", "file:///b.md").unwrap(), "./b.md");
    assert_eq!(rel("w/a.md", "file:///w/b.md"), Err(LspError::ResolutionFailed));
    assert_eq!(rel("file:///w/a.md", "w/b.md"), Err(LspError::ResolutionFailed));
    assert_eq!(rel("file:///", "file:///w/b.md"), Err(LspError::ResolutionFailed));
    assert_eq!(dotted_path(""), "./");
    assert_eq!(dotted_path("a/b"), "./a/b");
    assert_eq!(dotted_path("../a"), "../a");
    assert_eq!(dotted_path("/a"), "/a");
}

#[test]
fn frames() {
    assert_eq!(encode_message("{}").unwrap(), "Content-Length: 2\r\n\r\n{}");
    assert_eq!(encode_message("").unwrap(), "Content-Length: 0\r\n\r\n");
    assert_eq!(encode_message("{\"a\":\"é\"}").unwrap(), "Content-Length: 10\r\n\r\n{\"a\":\"é\"}");
    let long = "x".repeat(1234);
    assert_eq!(
        encode_message(&long).unwrap(),
        format!("Content-Length: 1234\r\n\r\n{}", long)
    );
    assert_eq!(content_length("Content-Length: 42\r\n\r\n"), Some(42));
    assert_eq!(content_length("Content-Type: x\r\nContent-Length:   7  \r\n\r\n"), Some(7));
    assert_eq!(content_length("Content-Length: +5\r\n\r\n"), Some(5));
    assert_eq!(content_length("Content-Length: 0\r\n\r\n"), Some(0));
    assert_eq!(content_length("Content-Length: 12:34\r\n\r\n"), Some(12));
    assert_eq!(content_length("Content-Length: 18446744073709551615\r\n\r\n"), Some(usize::MAX));
    assert_eq!(content_length("Content-Length: 18446744073709551616\r\n\r\n"), None);
    assert_eq!(content_length("Content-Length: 99999999999999999999999\r\n\r\n"), None);
    assert_eq!(content_length("Content-Length: \r\n\r\n"), None);
    assert_eq!(content_length("Content-Length: 1x\r\n\r\n"), None);
    assert_eq!(content_length("Content-Length: -1\r\n\r\n"), None);
    assert_eq!(content_length("X-Content-Length: 5\r\n\r\n"), None);
    assert_eq!(content_length("content-length: 5\r\n\r\n"), None);
    assert_eq!(content_length("Content-Length:5\r\n\r\n"), None);
    assert_eq!(content_length("Content-Length: x\r\nContent-Length: 5\r\n\r\n"), None);
    assert_eq!(content_length("\r\n"), None);
    assert_eq!(frame_length("Content-Length: 3\r\n\r\n"), Ok(3));
    assert_eq!(frame_length("\r\n"), Err(LspError::Protocol));
}

#[test]
fn messages() {
    assert_eq!(RPC_VERSION, "2.0");
    let request = Request::new(7, "textDocument/hover", "{}".to_string());
    assert_eq!(request.rpc, "2.0");
    assert_eq!(request.id, 7);
    assert_eq!(request.method, "textDocument/hover");
    assert_eq!(request.params, "{}");
    let ok = Response::from_ok(7, "null".to_string());
    assert_eq!(ok.jsonrpc, "2.0");
    assert_eq!(ok.id, 7);
    assert_eq!(ok.result.as_deref(), Some("null"));
    assert!(ok.error.is_none());
    let failed = Response::from_error(8, -1, "boom".to_string());
    assert_eq!(failed.id, 8);
    assert!(failed.result.is_none());
    let error = failed.error.unwrap();
    assert_eq!(error.code, -1);
    assert_eq!(error.message, "boom");
    assert!(error.data.is_none());
    let failure = Response::from_failure(9, LspError::DocumentNotFound);
    let error = failure.error.unwrap();
    assert_eq!(error.code, REQUEST_FAILED);
    assert_eq!(error.code, -32803);
    assert_eq!(error.message, "Document not found");
    let note = Notification::new("initialized", "{}".to_string());
    assert_eq!(note.jsonrpc, "2.0");
    assert_eq!(note.method, "initialized");
    assert_eq!(Method::from_name("initialize"), Method::Initialize);
    assert_eq!(Method::from_name("initialized"), Method::Initialized);
    assert_eq!(Method::from_name("shutdown"), Method::Shutdown);
    assert_eq!(Method::from_name("textDocument/didOpen"), Method::DidOpen);
    assert_eq!(Method::from_name("textDocument/didChange"), Method::DidChange);
    assert_eq!(Method::from_name("textDocument/didClose"), Method::DidClose);
    assert_eq!(Method::from_name("textDocument/didSave"), Method::DidSave);
    assert_eq!(Method::from_name("textDocument/hover"), Method::Hover);
    assert_eq!(Method::from_name("textDocument/definition"), Method::Definition);
    assert_eq!(Method::from_name("textDocument/references"), Method::References);
    assert_eq!(Method::from_name("textDocument/completion"), Method::Completion);
    assert_eq!(Method::from_name("completionItem/resolve"), Method::CompletionResolve);
    assert_eq!(Method::from_name("textDocument/codeAction"), Method::CodeAction);
    assert_eq!(Method::from_name("textDocument/diagnostic"), Method::Diagnostic);
    assert_eq!(Method::from_name("textDocument/Hover"), Method::Unknown);
    assert_eq!(Method::from_name(""), Method::Unknown);
}

#[test]
fn every_error_has_its_text() {
    assert_eq!(LspError::DocumentNotFound.message(), "Document not found");
    assert_eq!(LspError::ResolutionFailed.message(), "Link target could not be resolved");
    assert_eq!(LspError::Unsupported.message(), "Incremental changes are not supported");
    assert_eq!(LspError::Protocol.message(), "Malformed message");
    assert_eq!(LspError::DefinitionNotFound.message(), "Definition not found");
    assert_eq!(LspError::StaleVersion.message(), "Update is older than the document");
}

#[test]
fn settings() {
    let config = Config::default();
    assert_eq!(config.server, ServerConfig { max_files: None, verbose: false });
    assert_eq!(
        config.markdown,
        MarkdownConfig { enable_frontmatter: true, validate_links: true }
    );
    assert_eq!(
        config.diagnostics,
        DiagnosticsConfig { enable_broken_links: true, enable_missing_frontmatter: false }
    );
    assert_eq!(
        config.links,
        LinkConfig {
            enable_filename_resolution: true,
            generation_style: LinkGenerationStyle::Filename
        }
    );
    assert_eq!(ServerConfig::default(), config.server);
    assert_eq!(MarkdownConfig::default(), config.markdown);
    assert_eq!(DiagnosticsConfig::default(), config.diagnostics);
    assert_eq!(LinkConfig::default(), config.links);
    let custom = Config::new(
        ServerConfig { max_files: Some(10), verbose: true },
        config.markdown,
        config.diagnostics,
        LinkConfig {
            enable_filename_resolution: false,
            generation_style: LinkGenerationStyle::Absolute,
        },
    );
    assert_eq!(custom.server.max_files, Some(10));
    assert_eq!(Config::from_file_or_default(Some(custom)), custom);
    assert_eq!(Config::from_file_or_default(None), Config::default());
}

#[test]
fn positions_ranges_and_references() {
    let range = Range::new(Position::new(1, 2), Position::new(3, 4));
    assert!(range.is_range());
    assert!(!Range::new(Position::new(1, 2), Position::new(1, 9)).is_range());
    assert!(!range.is_empty());
    assert!(Range::default().is_empty());
    assert!(range.contains(Position::new(1, 2)));
    assert!(range.contains(Position::new(2, 0)));
    assert!(range.contains(Position::new(3, 3)));
    assert!(!range.contains(Position::new(3, 4)));
    assert!(!range.contains(Position::new(1, 1)));
    assert!(Position::new(1, 9).is_before(Position::new(2, 0)));
    assert!(!Position::new(2, 0).is_before(Position::new(2, 0)));
    let header = ReferenceKind::Header { level: 2, content: "H".to_string() };
    let link = ReferenceKind::Link {
        target: "t".to_string(),
        alt_text: "a".to_string(),
        title: None,
        header: Some("h".to_string()),
    };
    let wiki = ReferenceKind::WikiLink {
        target: "w".to_string(),
        alias: Some("x".to_string()),
        header: None,
    };
    assert!(!header.is_link() && link.is_link() && wiki.is_link());
    assert_eq!(header.get_target(), None);
    assert_eq!(link.get_target(), Some("t"));
    assert_eq!(wiki.get_target(), Some("w"));
    assert_eq!(header.get_link_header(), None);
    assert_eq!(link.get_link_header(), Some("h"));
    assert_eq!(wiki.get_link_header(), None);
    assert_eq!(header.get_content(), Some("H"));
    assert_eq!(link.get_content(), None);
    assert_eq!(header.get_level(), Some(2));
    assert_eq!(wiki.get_level(), None);
    assert_eq!(wiki.get_alias(), Some("x"));
    assert_eq!(link.get_alias(), None);
    let reference = Reference { kind: header, range };
    assert!(reference.contains_position(Position::new(2, 100)));
    assert!(!reference.contains_position(Position::new(0, 0)));
    assert!(!reference.contains_position(Position::new(3, 4)));
    let id = OptionalVersionedTextDocumentIdentifier::new(URI::from_str("file:///a"), Some(2));
    assert_eq!(id.text_document.uri.as_str(), "file:///a");
    assert_eq!(id.version, Some(2));
    assert!(normalized_headers_match("A  b", "a-B"));
    assert!(!normalized_headers_match("A  b", "ab"));
    assert!(headers_are_compatible(None, None));
    assert!(headers_are_compatible(Some("a"), Some("a")));
    assert!(!headers_are_compatible(Some("a"), Some("A")));
    assert!(!headers_are_compatible(Some("a"), None));
}

#[test]
fn character_classes_follow_unicode() {
    assert!(class_holds(CharClass::Alphanumeric, 'é'));
    assert!(class_holds(CharClass::Alphanumeric, '٣'));
    assert!(!class_holds(CharClass::Alphanumeric, '-'));
    assert!(class_holds(CharClass::Whitespace, '\u{a0}'));
    assert!(class_holds(CharClass::Whitespace, '\n'));
    assert!(!class_holds(CharClass::Blank, '\n'));
    assert!(class_holds(CharClass::KeyStart, '_'));
    assert!(!class_holds(CharClass::KeyStart, '1'));
    assert!(class_holds(CharClass::KeyRest, '1'));
    assert!(!class_holds(CharClass::Unquoted, '\t'));
    assert!(!class_holds(CharClass::Unquoted, ':'));
    assert!(class_holds(CharClass::Unquoted, '"'));
    let text = to_chars("  \u{2003}héllo wörld85 \n");
    assert_eq!(trim_bounds(&text, 0, text.len()), (3, 16));
    assert_eq!(scan(&text, 3, CharClass::Alphanumeric), 8);
    assert_eq!(scan_back(&text, 3, 16, CharClass::Alphanumeric), 9);
    assert_eq!(scan(&text, 0, CharClass::Dash), 0);
    assert_eq!(substring(&text, 3, 8), "héllo");
    assert!(str_eq("héllo", "héllo"));
    assert!(!str_eq("héllo", "hello"));
    assert_eq!(decimal_chars(0), vec!['0']);
    assert_eq!(decimal_chars(907), vec!['9', '0', '7']);
    assert_eq!(decimal_chars(u64::MAX).iter().collect::<String>(), "18446744073709551615");
}

#[test]
fn answers_and_steps_wrap_what_they_are_made_of() {
    let command = Command { title: "t".to_string(), command: "c".to_string(), arguments: None };
    match CodeActionOrCommand::from_command(command) {
        CodeActionOrCommand::Command(c) => assert_eq!(c.title, "t"),
        other => panic!("not a command: {:?}", other),
    }
    let action = CodeAction { title: "a".to_string(), kind: None, edit: None, command: None };
    match CodeActionOrCommand::from_code_action(action) {
        CodeActionOrCommand::CodeAction(a) => assert_eq!(a.title, "a"),
        other => panic!("not a code action: {:?}", other),
    }
    let create = ResourceOp::Create(CreateFile {
        uri: URI::from_str("file:///n.md"),
        options: None,
        annotation_id: None,
    });
    match DocumentChangeOperation::from_op(create) {
        DocumentChangeOperation::Op(ResourceOp::Create(c)) => {
            assert_eq!(c.uri.as_str(), "file:///n.md")
        }
        other => panic!("not a creation: {:?}", other),
    }
    let edit = TextDocumentEdit {
        text_document: OptionalVersionedTextDocumentIdentifier::new(URI::from_str("file:///e"), None),
        edits: vec![TextEdit::new(Range::default(), "x".to_string())],
    };
    match DocumentChangeOperation::from_edit(edit) {
        DocumentChangeOperation::Edit(e) => assert_eq!(e.edits[0].new_text, "x"),
        other => panic!("not an edit: {:?}", other),
    }
    let location = Location::new(URI::from_str("file:///l"), Range::default());
    assert_eq!(location.uri.as_str(), "file:///l");
}

#[test]
fn parse_outputs() {
    let span = ByteSpan { start: 1, end: 2 };
    assert_eq!(span.into_range(), (1, 2));
    let warning = ParseError { span, kind: ParseErrorKind::AliasSpacing };
    assert_eq!(warning.span(), span);
    let clean = ParseOutput { output: Some(1), errors: vec![] };
    assert!(!clean.has_errors() && clean.has_output());
    assert_eq!(clean.into_result(), Ok(1));
    let warned = ParseOutput { output: Some(1), errors: vec![warning] };
    assert!(warned.has_errors() && warned.has_output());
    assert_eq!(warned.clone().into_output_errors(), (Some(1), vec![warning]));
    assert_eq!(warned.into_result(), Err(vec![warning]));
    let failed: ParseOutput<i32> = ParseOutput { output: None, errors: vec![] };
    assert_eq!(failed.into_result(), Err(vec![]));
    for (kind, text) in [
        (ParseErrorKind::AliasSpacing, "WikiLink alias contains spaces before or after."),
        (ParseErrorKind::TitleSpacing, "Link title contains spaces before or after"),
        (ParseErrorKind::InvalidWikiLink, "WikiLink format is invalid."),
        (ParseErrorKind::InvalidLink, "Link format is invalid."),
        (ParseErrorKind::InvalidImage, "Image format is invalid."),
        (ParseErrorKind::InvalidFootnote, "Footnote format is invalid."),
        (ParseErrorKind::Unexpected, "Unexpected input."),
        (ParseErrorKind::TrailingInput, "Unexpected input after the end."),
    ] {
        assert_eq!(ParseError { span, kind }.reason(), text);
    }
}
