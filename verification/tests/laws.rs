use rust_markdown_lsp::document::references::{Reference, ReferenceKind};
use rust_markdown_lsp::document::Document;
use rust_markdown_lsp::error::LspError;
use rust_markdown_lsp::lsp::goto_definition::process_goto_definition;
use rust_markdown_lsp::lsp::helpers::normalize_header_content;
use rust_markdown_lsp::lsp::link_resolver::normalize_for_matching;
use rust_markdown_lsp::lsp::references::process_references;
use rust_markdown_lsp::lsp::server::Server;
use rust_markdown_lsp::lsp_types::{
    Location, Position, Range, ReferenceContext, ReferenceParams, TextDocumentIdentifier,
    TextDocumentPositionParams,
};
use rust_markdown_lsp::text_buffer_conversions::{TextBuffer, TextBufferConversions};
use rust_markdown_lsp::uri::URI;

const SAMPLE: &str = "# Überschrift\nsee [[note#Part|the part]] and [x](./y.md#z)\n\n## Teil 2\n[[broken\n";

#[test]
fn reference_spans_lie_within_the_buffer() {
    let document = Document::new(URI::from_str("file:///a.md"), SAMPLE, 3).unwrap();
    assert_eq!(document.references.len(), 4);
    let len = document.content.byte_len();
    assert_eq!(len, SAMPLE.len());
    let mut read_back = Vec::new();
    for reference in &document.references {
        let span = document.lsp_range_to_byte(&reference.range).unwrap();
        assert!(span.start < span.end);
        assert!(span.end <= len);
        read_back.push(&SAMPLE[span.start..span.end]);
    }
    assert_eq!(
        read_back,
        vec!["# Überschrift", "[[note#Part|the part]]", "[x](./y.md#z)", "## Teil 2"]
    );
    for diagnostic in &document.diagnostics {
        let span = document.lsp_range_to_byte(&diagnostic.range).unwrap();
        assert!(span.start <= span.end && span.end <= len);
    }
}

#[test]
fn versions_only_grow() {
    let mut document = Document::new(URI::from_str("file:///a.md"), "# A\n", 3).unwrap();
    assert_eq!(document.update("# B\n[[a]]\n", 4), Ok(()));
    assert_eq!(document.version, 4);
    assert_eq!(document.content.to_string(), "# B\n[[a]]\n");
    assert_eq!(document.references.len(), 2);
    assert_eq!(document.update("# C\n", 4), Err(LspError::StaleVersion));
    assert_eq!(document.update("# C\n", 2), Err(LspError::StaleVersion));
    assert_eq!(document.version, 4);
    assert_eq!(document.content.to_string(), "# B\n[[a]]\n");
    assert_eq!(document.references.len(), 2);
}

#[test]
fn reference_at_position_holds_the_position() {
    let document = Document::new(URI::from_str("file:///a.md"), SAMPLE, 0).unwrap();
    for line in 0..6 {
        for character in 0..50 {
            let position = Position::new(line, character);
            match document.get_reference_at_position(position) {
                Some(reference) => {
                    let start = reference.range.start;
                    let end = reference.range.end;
                    assert!((start.line, start.character) <= (line, character));
                    assert!((line, character) < (end.line, end.character));
                    assert!(reference.contains_position(position));
                }
                None => {
                    assert!(document.references.iter().all(|r| !r.contains_position(position)));
                }
            }
        }
    }
    let link = &document.references[1];
    assert_eq!(link.range, Range::new(Position::new(1, 4), Position::new(1, 26)));
    assert!(document.get_reference_at_position(Position::new(1, 4)).is_some());
    assert!(document.get_reference_at_position(Position::new(1, 25)).is_some());
    assert!(document.get_reference_at_position(Position::new(1, 26)).is_none());
    assert!(document.get_reference_at_position(Position::new(1, 3)).is_none());
}

#[test]
fn header_normalization_is_idempotent() {
    for text in ["Example & Header", "  A  B  ", "ÀÉÎ õ_ü", "İstanbul", "ΟΔΟΣ", "a--b", "#1", ""] {
        let once = normalize_header_content(text);
        assert_eq!(normalize_header_content(&once), once);
    }
}

#[test]
fn filename_normalization_is_idempotent_and_ignores_case() {
    assert_eq!(normalize_for_matching("A B"), "a-b");
    assert_eq!(normalize_for_matching("a-b"), "a-b");
    assert_eq!(normalize_for_matching("A B"), normalize_for_matching("a-b"));
    for text in ["My Note", "my_note", "ÄÖ Ü", "x.y-z", ""] {
        let once = normalize_for_matching(text);
        assert_eq!(normalize_for_matching(&once), once);
        assert_eq!(normalize_for_matching(&text.to_uppercase()), normalize_for_matching(&once));
    }
}

#[test]
fn positions_and_bytes_round_trip() {
    let text = "first line\nsecond\r\nthird\n\nlast";
    let buffer = TextBuffer::new(text);
    for b in 0..=text.len() {
        let position = buffer.byte_to_lsp_position(b);
        assert_eq!(buffer.lsp_position_to_byte(position), Some(b));
    }
    assert_eq!(buffer.byte_to_lsp_position(0), Position::new(0, 0));
    assert_eq!(buffer.byte_to_lsp_position(11), Position::new(1, 0));
    assert_eq!(buffer.byte_to_lsp_position(14), Position::new(1, 3));
    assert_eq!(buffer.byte_to_lsp_position(text.len()), Position::new(4, 4));
    assert_eq!(buffer.lsp_position_to_byte(Position::new(2, 2)), Some(21));
    assert_eq!(buffer.lsp_position_to_byte(Position::new(5, 0)), Some(text.len()));
    assert_eq!(buffer.lsp_position_to_byte(Position::new(6, 0)), None);
    assert_eq!(buffer.lsp_position_to_byte(Position::new(1, usize::MAX)), None);
}

#[test]
fn positions_and_bytes_round_trip_on_text_of_many_bytes() {
    let buffer = TextBuffer::new("é!\nü");
    assert_eq!(buffer.byte_len(), 6);
    assert_eq!(buffer.len_lines(), 2);
    assert_eq!(buffer.byte_to_lsp_position(2), Position::new(0, 2));
    assert_eq!(buffer.lsp_position_to_byte(Position::new(0, 2)), Some(2));
    assert_eq!(buffer.byte_to_lsp_position(4), Position::new(1, 0));
    assert_eq!(buffer.byte_to_lsp_position(6), Position::new(1, 2));
    let texts = [
        "é!",
        "日本語\nテキスト\r\n😀😀\n",
        "a\r\n\r\nä\u{2028}ö\u{85}ü\u{b}x\u{c}y\u{2029}\r",
        "# Überschrift\nsee [[nöte#Pärt|the part]]\n",
    ];
    for text in texts {
        let buffer = TextBuffer::new(text);
        for b in 0..=text.len() {
            let position = buffer.byte_to_lsp_position(b);
            assert!(position.line < buffer.len_lines());
            assert_eq!(buffer.lsp_position_to_byte(position), Some(b));
        }
    }
}

#[test]
fn slices_are_cut_where_characters_begin() {
    let buffer = TextBuffer::new("é!\nü");
    assert_eq!(buffer.byte_slice(0, 2).as_deref(), Some("é"));
    assert_eq!(buffer.byte_slice(0, 1), None);
    assert_eq!(buffer.byte_slice(2, 1), None);
    assert_eq!(buffer.byte_slice(4, 7), None);
    assert_eq!(buffer.byte_slice(3, 6).as_deref(), Some("\nü"));
    assert_eq!(buffer.to_string(), "é!\nü");
}

fn workspace() -> Server {
    let mut server = Server::new();
    server.set_root(URI::from_str("file:///w"));
    server
        .documents
        .open_document(
            URI::from_str("file:///w/a.md"),
            0,
            "# Start\nsee [[b#Second part]] and [b](./b.md#second-part)\nand [[b]] and [[b#missing]]\n",
        )
        .unwrap();
    server
        .documents
        .open_document(
            URI::from_str("file:///w/b.md"),
            0,
            "# First\ntext\n## Second Part\n[[b#second part]] [[a]]\n## Second part\n",
        )
        .unwrap();
    server
        .documents
        .open_document(URI::from_str("file:///w/sub/c.md"), 0, "[up](../b.md#Second Part)\n")
        .unwrap();
    server
}

fn at(uri: &str, line: usize, character: usize) -> TextDocumentPositionParams {
    TextDocumentPositionParams {
        text_document: TextDocumentIdentifier { uri: URI::from_str(uri) },
        position: Position::new(line, character),
    }
}

fn location(uri: &str, start: (usize, usize), end: (usize, usize)) -> Location {
    Location::new(
        URI::from_str(uri),
        Range::new(Position::new(start.0, start.1), Position::new(end.0, end.1)),
    )
}

#[test]
fn goto_definition_inverts_link_creation() {
    let server = workspace();
    let header = location("file:///w/b.md", (2, 0), (2, 14));
    let wiki = process_goto_definition(&server, &at("file:///w/a.md", 1, 6)).unwrap();
    assert_eq!(wiki, Some(header.clone()));
    let inline = process_goto_definition(&server, &at("file:///w/a.md", 1, 30)).unwrap();
    assert_eq!(inline, Some(header.clone()));
    let from_sub = process_goto_definition(&server, &at("file:///w/sub/c.md", 0, 1)).unwrap();
    assert_eq!(from_sub, Some(header));
    let no_fragment = process_goto_definition(&server, &at("file:///w/a.md", 2, 5)).unwrap();
    assert_eq!(no_fragment, Some(location("file:///w/b.md", (0, 0), (0, 7))));
}

#[test]
fn goto_definition_answers_nothing_or_fails() {
    let server = workspace();
    assert_eq!(process_goto_definition(&server, &at("file:///w/a.md", 0, 2)), Ok(None));
    assert_eq!(process_goto_definition(&server, &at("file:///w/a.md", 1, 1)), Ok(None));
    assert_eq!(
        process_goto_definition(&server, &at("file:///w/a.md", 2, 20)),
        Err(LspError::DefinitionNotFound)
    );
    assert_eq!(
        process_goto_definition(&server, &at("file:///w/gone.md", 0, 0)),
        Err(LspError::DocumentNotFound)
    );
    assert_eq!(
        process_goto_definition(&server, &at("file:///w/b.md", 3, 20)),
        Ok(Some(location("file:///w/a.md", (0, 0), (0, 7))))
    );
    let mut lonely = Server::new();
    lonely
        .documents
        .open_document(URI::from_str("file:///w/a.md"), 0, "[[nowhere]] [x](/abs.md)")
        .unwrap();
    assert_eq!(
        process_goto_definition(&lonely, &at("file:///w/a.md", 0, 3)),
        Err(LspError::DocumentNotFound)
    );
    assert_eq!(
        process_goto_definition(&lonely, &at("file:///w/a.md", 0, 14)),
        Err(LspError::ResolutionFailed)
    );
}

fn references(server: &Server, uri: &str, line: usize, character: usize, declaration: bool)
    -> Vec<Location> {
    let params = ReferenceParams {
        text_document_position: at(uri, line, character),
        context: ReferenceContext { include_declaration: declaration },
    };
    process_references(server, &params).unwrap().unwrap()
}

#[test]
fn references_are_symmetric_with_goto_definition() {
    let server = workspace();
    let found = references(&server, "file:///w/b.md", 2, 3, false);
    assert_eq!(
        found,
        vec![
            location("file:///w/a.md", (1, 4), (1, 21)),
            location("file:///w/a.md", (1, 26), (1, 49)),
            location("file:///w/b.md", (3, 0), (3, 17)),
            location("file:///w/sub/c.md", (0, 0), (0, 25)),
        ]
    );
    for link in &found {
        let landed = process_goto_definition(
            &server,
            &at(link.uri.as_str(), link.range.start.line, link.range.start.character),
        );
        assert_eq!(landed, Ok(Some(location("file:///w/b.md", (2, 0), (2, 14)))));
    }
    let with_declaration = references(&server, "file:///w/b.md", 2, 3, true);
    assert_eq!(with_declaration.len(), 5);
    assert_eq!(with_declaration[0], location("file:///w/b.md", (2, 0), (2, 14)));
    assert_eq!(with_declaration[1..], found[..]);
}

#[test]
fn references_of_links_and_of_documents() {
    let server = workspace();
    let from_link = references(&server, "file:///w/a.md", 2, 5, false);
    assert_eq!(from_link, Vec::<Location>::new());
    let same_fragment = references(&server, "file:///w/b.md", 3, 2, false);
    assert_eq!(
        same_fragment,
        vec![
            location("file:///w/b.md", (2, 0), (2, 14)),
            location("file:///w/b.md", (4, 0), (4, 14)),
        ]
    );
    let to_document = references(&server, "file:///w/a.md", 1, 1, false);
    assert_eq!(to_document, vec![location("file:///w/b.md", (3, 18), (3, 23))]);
    let params = ReferenceParams {
        text_document_position: at("file:///w/gone.md", 0, 0),
        context: ReferenceContext { include_declaration: false },
    };
    assert_eq!(process_references(&server, &params), Err(LspError::DocumentNotFound));
}

fn is_line_break(c: char) -> bool {
    matches!(c, '\n' | '\r' | '\u{b}' | '\u{c}' | '\u{85}' | '\u{2028}' | '\u{2029}')
}

fn ends_line(chars: &[char], j: usize) -> bool {
    is_line_break(chars[j]) && !(chars[j] == '\r' && j + 1 < chars.len() && chars[j + 1] == '\n')
}

fn check_lines(text: &str) {
    let rope = ropey::Rope::from_str(text);
    let buffer = TextBuffer::new(text);
    let chars: Vec<char> = text.chars().collect();
    let mut offsets = vec![0usize];
    for c in &chars {
        offsets.push(offsets[offsets.len() - 1] + c.len_utf8());
    }
    let mut lines_before = vec![0usize];
    let mut starts = vec![0usize];
    for j in 0..chars.len() {
        let ended = ends_line(&chars, j);
        lines_before.push(lines_before[j] + usize::from(ended));
        if ended {
            starts.push(offsets[j + 1]);
        }
    }
    let lines = lines_before[chars.len()] + 1;
    assert_eq!(rope.len_bytes(), text.len());
    assert_eq!(buffer.byte_len(), text.len());
    assert_eq!(rope.len_lines(), lines);
    assert_eq!(buffer.len_lines(), lines);
    for line in 0..lines {
        assert_eq!(rope.line_to_byte(line), starts[line]);
    }
    assert_eq!(rope.line_to_byte(lines), text.len());
    let mut k = 0;
    for b in 0..=text.len() {
        while k < chars.len() && offsets[k + 1] <= b {
            k += 1;
        }
        let line = lines_before[k];
        assert_eq!(rope.byte_to_line(b), line);
        assert_eq!(
            buffer.byte_to_lsp_position(b),
            Position::new(line, b - starts[line])
        );
        assert_eq!(buffer.lsp_position_to_byte(Position::new(line, b - starts[line])), Some(b));
    }
    assert_eq!(buffer.lsp_position_to_byte(Position::new(lines, 0)), Some(text.len()));
    assert_eq!(buffer.lsp_position_to_byte(Position::new(lines + 1, 0)), None);
}

#[test]
fn the_rope_keeps_its_promises() {
    let samples = [
        "",
        "plain",
        "a\nb\n",
        "a\r\nb\r\n\r\nc",
        "\r\r\n\n\r",
        "é\u{2028}ü\u{85}x\u{b}y\u{c}z\u{2029}",
        "日本語\nテキスト\r\n😀😀\n",
    ];
    for text in samples {
        check_lines(text);
        let buffer = TextBuffer::new(text);
        assert_eq!(buffer.to_string(), text);
        for b in 0..=text.len() {
            for e in b..=text.len() + 1 {
                let cut = buffer.byte_slice(b, e);
                let can = e <= text.len() && text.is_char_boundary(b) && text.is_char_boundary(e);
                assert_eq!(cut.is_some(), can);
                if can {
                    assert_eq!(cut.unwrap(), &text[b..e]);
                }
            }
            assert_eq!(buffer.byte_slice(b + 1, b), None);
        }
    }
}

#[test]
fn the_rope_counts_lines_alike_in_long_texts() {
    let pieces = [
        "line of text", "\r\n", "é", "\n", "\r", "日本", "\u{2028}", " ", "\u{85}", "x",
        "\r\n", "😀", "\u{b}", "\u{c}", "\u{2029}", "\r", "\n", "word ",
    ];
    let mut state: u64 = 12345;
    for round in 0..6 {
        let mut text = String::new();
        for _ in 0..(400 + round * 300) {
            state = state.wrapping_mul(6364136223846793005).wrapping_add(1442695040888963407);
            text.push_str(pieces[((state >> 33) % 18) as usize]);
        }
        check_lines(&text);
    }
    let mut pairs = String::new();
    for i in 0..3000 {
        pairs.push_str(if i % 7 == 0 { "ab\r\n" } else { "\r\n" });
    }
    check_lines(&pairs);
}

#[test]
fn a_copy_of_a_document_holds_the_same_text() {
    let document = Document::new(URI::from_str("file:///a.md"), SAMPLE, 3).unwrap();
    let copy = document.clone();
    assert_eq!(copy.content.to_string(), SAMPLE);
    assert_eq!(document.content.duplicate().to_string(), SAMPLE);
    assert_eq!(copy.content.byte_len(), document.content.byte_len());
    assert_eq!(copy.references, document.references);
    assert_eq!(
        copy.references[0],
        Reference {
            kind: ReferenceKind::Header { level: 1, content: "Überschrift".to_string() },
            range: Range::new(Position::new(0, 0), Position::new(0, 14)),
        }
    );
}
