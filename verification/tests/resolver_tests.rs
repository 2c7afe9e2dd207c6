use rust_markdown_lsp::lsp::helpers::normalize_header_content;
use rust_markdown_lsp::lsp::link_resolver::{
    extract_filename, extract_filename_stem, is_path_syntax, normalize_for_matching,
};
use rust_markdown_lsp::uri::URI;

#[test]
fn test_normalize_header_content() {
    assert_eq!(normalize_header_content("Example Header"), "example-header");
    assert_eq!(normalize_header_content("Example  Header"), "example-header");
    assert_eq!(normalize_header_content("Example-Header"), "example-header");
    assert_eq!(normalize_header_content("Example_Header"), "example-header");
    assert_eq!(normalize_header_content("Example & Header"), "example-header");
    assert_eq!(normalize_header_content("Example Header!"), "example-header");
}

#[test]
fn test_header_matching_with_hash_prefix() {
    let original_header = "Example Header";
    let target_with_hash = "#example-header";
    let target_without_hash = target_with_hash.strip_prefix('#').unwrap();

    let matches = normalize_header_content(original_header) == target_without_hash
        || normalize_header_content(original_header)
            == normalize_header_content(target_without_hash);

    assert!(
        matches,
        "Header matching should work with hash prefix stripped"
    );
}

#[test]
fn test_is_path_syntax() {
    assert!(is_path_syntax("/absolute/path.md"));
    assert!(is_path_syntax("./relative.md"));
    assert!(is_path_syntax("../parent.md"));
    assert!(is_path_syntax("folder/file.md"));
    assert!(!is_path_syntax("note"));
    assert!(!is_path_syntax("my-note"));
}

#[test]
fn test_normalize_for_matching() {
    assert_eq!(normalize_for_matching("My Note"), "my-note");
    assert_eq!(normalize_for_matching("my_note"), "my-note");
    assert_eq!(normalize_for_matching("MY-NOTE"), "my-note");
    assert_eq!(normalize_for_matching("my note"), "my-note");
    assert_eq!(normalize_for_matching("My_Cool_Note"), "my-cool-note");
}

#[test]
fn test_extract_filename_stem() {
    let uri = URI::from_str("file:///path/to/note.md");
    assert_eq!(extract_filename_stem(&uri), Some("note".to_string()));

    let uri = URI::from_str("file:///my-note.md");
    assert_eq!(extract_filename_stem(&uri), Some("my-note".to_string()));
}

#[test]
fn extract_filename_keeps_extension() {
    let uri = URI::from_str("file:///path/to/note.md");
    assert_eq!(extract_filename(&uri), Some("note.md".to_string()));
    assert_eq!(extract_filename(&URI::from_str("note.md")), None);
    assert_eq!(extract_filename(&URI::from_str("file:///path/to/")), None);
}
