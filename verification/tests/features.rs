use rust_markdown_lsp::config::{Config, LinkConfig, LinkGenerationStyle};
use rust_markdown_lsp::document::Document;
use rust_markdown_lsp::error::LspError;
use rust_markdown_lsp::lsp::completion::{
    extract_file_and_link_type_from_context, extract_file_from_context,
    handle_invoked_completion, handle_trigger_completion, process_completion,
    process_completion_resolve,
};
use rust_markdown_lsp::lsp::diagnostics::process_diagnostic;
use rust_markdown_lsp::lsp::did_change::{process_did_change, DidChangeTextDocumentParams};
use rust_markdown_lsp::lsp::did_close::{process_did_close, DidCloseTextDocumentParams};
use rust_markdown_lsp::lsp::did_open::{process_did_open, DidOpenTextDocumentParams};
use rust_markdown_lsp::lsp::hover::process_hover;
use rust_markdown_lsp::lsp::initialize::{process_initialize, TextDocumentSyncKind};
use rust_markdown_lsp::lsp::server::{DocumentState, DocumentStore, Server};
use rust_markdown_lsp::lsp_types::code_action::CodeActionKind;
use rust_markdown_lsp::lsp_types::{
    CompletionContext, CompletionItem, CompletionItemKind, CompletionParams,
    CompletionTriggerKind, DiagnosticSeverity, DocumentDiagnosticParams,
    FullTextDocumentContentChange, IncrementalTextDocumentContentChange, MarkupKind, Position,
    Range, TextDocumentContentChangeEvent, TextDocumentIdentifier, TextDocumentItem,
    TextDocumentPositionParams, VersionedTextDocumentIdentifier,
};
use rust_markdown_lsp::uri::URI;

fn at(uri: &str, line: usize, character: usize) -> TextDocumentPositionParams {
    TextDocumentPositionParams {
        text_document: TextDocumentIdentifier { uri: URI::from_str(uri) },
        position: Position::new(line, character),
    }
}

fn workspace() -> Server {
    let mut server = Server::new();
    server.set_root(URI::from_str("file:///w"));
    server
        .documents
        .open_document(
            URI::from_str("file:///w/a.md"),
            0,
            "# Start\nsee [[b#Two]] and [[b]] and [[gone]]\n",
        )
        .unwrap();
    server
        .documents
        .open_document(
            URI::from_str("file:///w/my b.md"),
            0,
            "l1\nl2\nl3\nl4\nl5\nl6\nl7\nl8\nl9\nl10\nl11\nl12\n",
        )
        .unwrap();
    server
        .documents
        .open_document(URI::from_str("file:///w/b.md"), 0, "# One\nfirst\n## Two\nsecond\n# Three\n")
        .unwrap();
    server
}

#[test]
fn hover_shows_what_the_link_leads_to() {
    let server = workspace();
    let hover = process_hover(&server, &at("file:///w/a.md", 1, 6)).unwrap().unwrap();
    assert_eq!(hover.contents.kind, MarkupKind::Markdown);
    assert_eq!(hover.contents.value, "## Two\nsecond\n");
    assert_eq!(hover.range, Some(Range::new(Position::new(1, 4), Position::new(1, 13))));
    let whole = process_hover(&server, &at("file:///w/a.md", 1, 20)).unwrap().unwrap();
    assert_eq!(whole.contents.value, "# One\nfirst\n## Two\nsecond\n# Three\n");
    assert_eq!(process_hover(&server, &at("file:///w/a.md", 0, 3)), Ok(None));
    assert_eq!(process_hover(&server, &at("file:///w/a.md", 1, 0)), Ok(None));
    assert_eq!(
        process_hover(&server, &at("file:///w/a.md", 1, 30)),
        Err(LspError::DocumentNotFound)
    );
    assert_eq!(
        process_hover(&server, &at("file:///w/none.md", 0, 0)),
        Err(LspError::DocumentNotFound)
    );
}

fn triggered(uri: &str, line: usize, character: usize) -> CompletionParams {
    CompletionParams {
        text_document_position: at(uri, line, character),
        context: Some(CompletionContext {
            trigger_kind: CompletionTriggerKind::TriggerCharacter,
            trigger_character: None,
        }),
    }
}

fn labels(items: &[CompletionItem]) -> Vec<&str> {
    items.iter().map(|i| i.label.as_str()).collect()
}

fn inserts(items: &[CompletionItem]) -> Vec<&str> {
    items.iter().map(|i| i.insert_text.as_deref().unwrap()).collect()
}

#[test]
fn completion_of_documents_after_wiki_brackets() {
    let mut server = workspace();
    server
        .documents
        .open_document(URI::from_str("file:///w/new.md"), 0, "text [[")
        .unwrap();
    let items = process_completion(&server, &triggered("file:///w/new.md", 0, 7))
        .unwrap()
        .unwrap();
    assert_eq!(labels(&items), vec!["a", "my b", "b", "new"]);
    assert_eq!(inserts(&items), vec!["a]]", "my b]]", "b]]", "new]]"]);
    assert!(items.iter().all(|i| i.kind == Some(CompletionItemKind::File)));
    assert!(items.iter().all(|i| i.detail.as_deref() == Some("Document")));
    assert_eq!(
        items[2].documentation.as_deref(),
        Some("Preview of b:\n\n```markdown\n# One\nfirst\n## Two\nsecond\n# Three\n```")
    );
    assert_eq!(
        items[1].documentation.as_deref(),
        Some("Preview of my b:\n\n```markdown\nl1\nl2\nl3\nl4\nl5\nl6\nl7\nl8\nl9\nl10\n```")
    );
    assert_eq!(
        items[3].documentation.as_deref(),
        Some("Preview of new:\n\n```markdown\ntext [[\n```")
    );
}

#[test]
fn completion_of_documents_after_a_link_bracket() {
    let mut server = workspace();
    server
        .documents
        .open_document(URI::from_str("file:///w/new.md"), 0, "[x](\nmore")
        .unwrap();
    let items = process_completion(&server, &triggered("file:///w/new.md", 0, 4))
        .unwrap()
        .unwrap();
    assert_eq!(labels(&items), vec!["a", "my b", "b", "new"]);
    assert_eq!(inserts(&items), vec!["a", "my%20b", "b", "new"]);
    server
        .documents
        .open_document(URI::from_str("file:///w/new.md"), 1, "[x](")
        .unwrap();
    server.config = Config::new(
        server.config.server,
        server.config.markdown,
        server.config.diagnostics,
        LinkConfig {
            enable_filename_resolution: true,
            generation_style: LinkGenerationStyle::Relative,
        },
    );
    let items = process_completion(&server, &triggered("file:///w/new.md", 0, 4))
        .unwrap()
        .unwrap();
    assert_eq!(labels(&items), vec!["./a.md", "./my b.md", "./b.md", "./new.md"]);
    assert_eq!(inserts(&items), vec!["./a.md)", "./my%20b.md)", "./b.md)", "./new.md)"]);
}

#[test]
fn completion_of_headers_after_a_hash() {
    let mut server = workspace();
    server
        .documents
        .open_document(URI::from_str("file:///w/new.md"), 0, "see [[b#")
        .unwrap();
    let items = process_completion(&server, &triggered("file:///w/new.md", 0, 8))
        .unwrap()
        .unwrap();
    assert_eq!(labels(&items), vec!["ONE", "TWO", "THREE"]);
    assert_eq!(inserts(&items), vec!["one]]", "two]]", "three]]"]);
    assert!(items.iter().all(|i| i.kind == Some(CompletionItemKind::Reference)));
    assert_eq!(
        items[1].label_details.as_ref().unwrap().description.as_deref(),
        Some("H2")
    );
    assert_eq!(
        items[1].documentation.as_deref(),
        Some("# Two\n\nHeading level 2\n\nLink: `two`")
    );

    server
        .documents
        .open_document(URI::from_str("file:///w/new.md"), 1, "see [[b#]] and [t](b#) x")
        .unwrap();
    let closed = process_completion(&server, &triggered("file:///w/new.md", 0, 8))
        .unwrap()
        .unwrap();
    assert_eq!(inserts(&closed), vec!["one", "two", "three"]);
    let inline = process_completion(&server, &triggered("file:///w/new.md", 0, 21))
        .unwrap()
        .unwrap();
    assert_eq!(inserts(&inline), vec!["one", "two", "three"]);

    server
        .documents
        .open_document(URI::from_str("file:///w/new.md"), 2, "[t](./b.md# x")
        .unwrap();
    let open = process_completion(&server, &triggered("file:///w/new.md", 0, 11))
        .unwrap()
        .unwrap();
    assert_eq!(inserts(&open), vec!["one)", "two)", "three)"]);
}

#[test]
fn completion_has_nothing_to_say_elsewhere() {
    let mut server = workspace();
    server
        .documents
        .open_document(URI::from_str("file:///w/new.md"), 0, "key: #\n[[gone#\né[[")
        .unwrap();
    let uri = "file:///w/new.md";
    assert_eq!(process_completion(&server, &triggered(uri, 0, 4)), Ok(Some(vec![])));
    assert_eq!(process_completion(&server, &triggered(uri, 0, 6)), Ok(None));
    assert_eq!(process_completion(&server, &triggered(uri, 1, 7)), Ok(None));
    assert_eq!(process_completion(&server, &triggered(uri, 9, 0)), Ok(None));
    assert_eq!(process_completion(&server, &triggered(uri, 2, 3)), Ok(Some(vec![])));
    assert_eq!(
        process_completion(&server, &triggered("file:///w/none.md", 0, 0)),
        Err(LspError::DocumentNotFound)
    );
    let mut invoked = triggered(uri, 0, 6);
    invoked.context = Some(CompletionContext {
        trigger_kind: CompletionTriggerKind::Invoked,
        trigger_character: None,
    });
    assert_eq!(process_completion(&server, &invoked), Ok(None));
    invoked.context = Some(CompletionContext {
        trigger_kind: CompletionTriggerKind::TriggerForIncompleteCompletions,
        trigger_character: None,
    });
    assert_eq!(process_completion(&server, &invoked), Ok(None));
    invoked.context = None;
    assert_eq!(process_completion(&server, &invoked), Ok(None));
    let document = server.documents.get_document(&URI::from_str(uri)).unwrap();
    assert_eq!(handle_invoked_completion(&server, document, Position::new(0, 6)), None);
    assert_eq!(
        handle_trigger_completion(&server, document, Position::new(0, 4)),
        Some(vec![])
    );
}

#[test]
fn link_context_is_the_last_link_opened_before_the_cursor() {
    let text = "[[first#a]] then [t](second#";
    let document = Document::new(URI::from_str("file:///w/x.md"), text, 0).unwrap();
    assert_eq!(
        extract_file_and_link_type_from_context(&document, text.len()),
        Some(("second".to_string(), false))
    );
    assert_eq!(
        extract_file_and_link_type_from_context(&document, 8),
        Some(("first".to_string(), true))
    );
    assert_eq!(extract_file_from_context(&document, 8), Some("first".to_string()));
    assert_eq!(extract_file_from_context(&document, 1), None);
    let far = format!("[[far#{}", "x".repeat(250));
    let document = Document::new(URI::from_str("file:///w/x.md"), &far, 0).unwrap();
    assert_eq!(extract_file_from_context(&document, far.len()), None);
    assert_eq!(extract_file_from_context(&document, 150), Some("far".to_string()));
    let no_hash = Document::new(URI::from_str("file:///w/x.md"), "[[open", 0).unwrap();
    assert_eq!(extract_file_from_context(&no_hash, 6), None);
}

#[test]
fn completion_resolve_keeps_the_label() {
    let server = Server::new();
    let item = CompletionItem {
        label: "note".to_string(),
        label_details: None,
        kind: Some(CompletionItemKind::File),
        detail: Some("Document".to_string()),
        documentation: Some("doc".to_string()),
        insert_text: Some("note]]".to_string()),
    };
    let resolved = process_completion_resolve(&server, item).unwrap();
    assert_eq!(
        resolved,
        CompletionItem {
            label: "note".to_string(),
            label_details: None,
            kind: None,
            detail: None,
            documentation: None,
            insert_text: None,
        }
    );
}

#[test]
fn diagnostics_are_those_of_the_last_reading() {
    let mut server = Server::new();
    let uri = URI::from_str("file:///w/a.md");
    server.documents.open_document(uri.clone(), 0, "[ t ](x)\n[bad\n").unwrap();
    let params = DocumentDiagnosticParams {
        text_document: TextDocumentIdentifier { uri: uri.clone() },
    };
    let report = process_diagnostic(&server, &params).unwrap();
    assert_eq!(report.result_id.as_deref(), Some("markdown-lsp"));
    assert_eq!(report.items.len(), 2);
    assert_eq!(report.items[0].message, "Link title contains spaces before or after");
    assert_eq!(report.items[0].range, Range::new(Position::new(0, 1), Position::new(0, 4)));
    assert_eq!(report.items[1].message, "Link format is invalid.");
    assert_eq!(report.items[1].severity, DiagnosticSeverity::Warning);
    assert_eq!(report.items, server.documents.get_document(&uri).unwrap().diagnostics);
    let missing = DocumentDiagnosticParams {
        text_document: TextDocumentIdentifier { uri: URI::from_str("file:///w/b.md") },
    };
    assert_eq!(process_diagnostic(&server, &missing), Err(LspError::DocumentNotFound));
}

fn open(uri: &str, version: i32, text: &str) -> DidOpenTextDocumentParams {
    DidOpenTextDocumentParams {
        text_document: TextDocumentItem {
            uri: URI::from_str(uri),
            language_id: "markdown".to_string(),
            version,
            text: text.to_string(),
        },
    }
}

fn change(uri: &str, version: i32, changes: Vec<TextDocumentContentChangeEvent>)
    -> DidChangeTextDocumentParams {
    DidChangeTextDocumentParams {
        text_document: VersionedTextDocumentIdentifier {
            text_document_identifier: TextDocumentIdentifier { uri: URI::from_str(uri) },
            version,
        },
        content_changes: changes,
    }
}

fn full(text: &str) -> TextDocumentContentChangeEvent {
    TextDocumentContentChangeEvent::Full(FullTextDocumentContentChange { text: text.to_string() })
}

#[test]
fn documents_are_open_at_a_version_or_absent() {
    let mut server = Server::new();
    let uri = URI::from_str("file:///w/a.md");
    assert_eq!(server.documents.state(&uri), DocumentState::Absent);
    process_did_open(&mut server, open("file:///w/a.md", 3, "# A\n")).unwrap();
    assert_eq!(server.documents.state(&uri), DocumentState::Open(3));
    process_did_open(&mut server, open("file:///w/a.md", 1, "# B\n")).unwrap();
    assert_eq!(server.documents.state(&uri), DocumentState::Open(1));
    assert_eq!(server.documents.get_documents().len(), 1);

    assert_eq!(
        process_did_change(&mut server, &change("file:///w/a.md", 2, vec![full("x"), full("# C\n[[a]]")])),
        Ok(())
    );
    assert_eq!(server.documents.state(&uri), DocumentState::Open(2));
    let document = server.documents.get_document(&uri).unwrap();
    assert_eq!(document.content.to_string(), "# C\n[[a]]");
    assert_eq!(document.references.len(), 2);

    assert_eq!(
        process_did_change(&mut server, &change("file:///w/a.md", 2, vec![full("late")])),
        Err(LspError::StaleVersion)
    );
    assert_eq!(
        server.documents.get_document(&uri).unwrap().content.to_string(),
        "# C\n[[a]]"
    );
    let ranged = TextDocumentContentChangeEvent::Incremental(IncrementalTextDocumentContentChange {
        range: Range::default(),
        range_length: None,
        text: "y".to_string(),
    });
    assert_eq!(
        process_did_change(&mut server, &change("file:///w/a.md", 9, vec![full("z"), ranged])),
        Err(LspError::Unsupported)
    );
    assert_eq!(server.documents.state(&uri), DocumentState::Open(2));
    assert_eq!(process_did_change(&mut server, &change("file:///w/a.md", 9, vec![])), Ok(()));
    assert_eq!(server.documents.state(&uri), DocumentState::Open(2));
    assert_eq!(
        process_did_change(&mut server, &change("file:///w/other.md", 9, vec![full("z")])),
        Ok(())
    );
    assert_eq!(server.documents.get_documents().len(), 1);

    let close = DidCloseTextDocumentParams {
        text_document: TextDocumentIdentifier { uri: uri.clone() },
    };
    process_did_close(&mut server, &close);
    assert_eq!(server.documents.state(&uri), DocumentState::Absent);
    assert!(server.documents.get_document(&uri).is_none());
    process_did_close(&mut server, &close);
    server.documents.remove_document(&uri);
    assert_eq!(server.documents.get_documents().len(), 0);
}

#[test]
fn the_store_keeps_documents_in_the_order_they_came() {
    let mut store = DocumentStore::new();
    let a = URI::from_str("file:///a.md");
    let b = URI::from_str("file:///b.md");
    let c = URI::from_str("file:///c.md");
    store.open_document(a.clone(), 0, "a").unwrap();
    store.open_document(b.clone(), 0, "b").unwrap();
    store.open_document(c.clone(), 0, "c").unwrap();
    store.open_document(b.clone(), 5, "b2").unwrap();
    let uris: Vec<&str> = store.get_documents().iter().map(|d| d.uri.as_str()).collect();
    assert_eq!(uris, vec!["file:///a.md", "file:///b.md", "file:///c.md"]);
    assert_eq!(store.get_document(&b).unwrap().content.to_string(), "b2");
    assert_eq!(store.get_document(&b).unwrap().version, 5);

    assert_eq!(store.update_document(&b, "b3"), Ok(()));
    assert_eq!(store.get_document(&b).unwrap().version, 6);
    assert_eq!(store.get_document(&b).unwrap().content.to_string(), "b3");
    assert_eq!(store.update_document(&URI::from_str("file:///d.md"), "d"), Ok(()));
    assert_eq!(store.get_documents().len(), 3);
    store.open_document(c.clone(), i32::MAX, "c").unwrap();
    assert_eq!(store.update_document(&c, "c2"), Err(LspError::StaleVersion));
    assert_eq!(store.get_document(&c).unwrap().content.to_string(), "c");
    assert_eq!(store.change_document(&a, "a2", 0), Err(LspError::StaleVersion));
    assert_eq!(store.change_document(&a, "a2", 1), Ok(()));
    assert_eq!(store.get_document(&a).unwrap().content.to_string(), "a2");

    store.remove_document(&a);
    let uris: Vec<&str> = store.get_documents().iter().map(|d| d.uri.as_str()).collect();
    assert_eq!(uris, vec!["file:///b.md", "file:///c.md"]);

    store.open_document(b.clone(), 9, "# B\n[[c]]\n").unwrap();
    store.open_document(c.clone(), 9, "[x](b)").unwrap();
    let all: Vec<(&str, usize)> = store
        .get_references_with_uri()
        .iter()
        .map(|(uri, reference)| (uri.as_str(), reference.range.start.line))
        .collect();
    assert_eq!(
        all,
        vec![("file:///b.md", 0), ("file:///b.md", 1), ("file:///c.md", 0)]
    );
}

#[test]
fn the_server_says_what_it_can_do() {
    let result = process_initialize();
    assert_eq!(result.capabilities.text_document_sync, TextDocumentSyncKind::Full);
    assert!(result.capabilities.hover_provider);
    assert!(result.capabilities.definition_provider);
    assert!(result.capabilities.references_provider);
    assert!(result.capabilities.completion_resolve_provider);
    assert_eq!(result.capabilities.code_action_kind, CodeActionKind::RefactorExtract);
    assert!(result.capabilities.inter_file_dependencies);
    assert!(result.capabilities.workspace_diagnostics);
    assert!(result.capabilities.workspace_folders);
    assert_eq!(result.completion_trigger_characters, vec!['#', '[', ':', '(']);
    let mut server = Server::new();
    assert!(server.root().is_none());
    server.set_root(URI::from_str("file:///w"));
    assert_eq!(server.root().unwrap().as_str(), "file:///w");
    server.set_client_capabilities("{}".to_string());
    assert_eq!(server.client_capabilities.as_deref(), Some("{}"));
    assert_eq!(server.config, Config::default());
}
