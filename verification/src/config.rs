//! Settings.

use vstd::prelude::*;

verus! {

/// When generating links in completions and actions, which style to use.
#[derive(Debug, Clone, Copy, PartialEq, Eq, Structural)]
pub enum LinkGenerationStyle {
    /// Generate links using just filename: [[note]]
    Filename,
    /// Generate links using relative paths: [[./folder/note.md]]
    Relative,
    /// Generate links using absolute paths: [[/docs/note.md]]
    Absolute,
}

/// Server-specific configuration
#[derive(Debug, Clone, Copy, PartialEq, Eq, Structural)]
pub struct ServerConfig {
    /// Maximum number of files to process
    pub max_files: Option<usize>,
    /// Enable verbose logging
    pub verbose: bool,
}

impl Default for ServerConfig {
    fn default() -> (r: Self)
        ensures
            r == (ServerConfig { max_files: None, verbose: false }),
    {
        ServerConfig { max_files: None, verbose: false }
    }
}

/// Markdown parsing configuration
#[derive(Debug, Clone, Copy, PartialEq, Eq, Structural)]
pub struct MarkdownConfig {
    /// Enable frontmatter parsing
    pub enable_frontmatter: bool,
    /// Enable link validation
    pub validate_links: bool,
}

impl Default for MarkdownConfig {
    fn default() -> (r: Self)
        ensures
            r == (MarkdownConfig { enable_frontmatter: true, validate_links: true }),
    {
        MarkdownConfig { enable_frontmatter: true, validate_links: true }
    }
}

/// Link resolution configuration
#[derive(Debug, Clone, Copy, PartialEq, Eq, Structural)]
pub struct LinkConfig {
    /// Enable filename-based link resolution
    /// When true, [[note]] or [[note.md]] will search for note.md anywhere in workspace
    pub enable_filename_resolution: bool,
    /// When generating links in completions/actions, which style to use
    pub generation_style: LinkGenerationStyle,
}

impl Default for LinkConfig {
    fn default() -> (r: Self)
        ensures
            r == (LinkConfig {
                enable_filename_resolution: true,
                generation_style: LinkGenerationStyle::Filename,
            }),
    {
        LinkConfig {
            enable_filename_resolution: true,
            generation_style: LinkGenerationStyle::Filename,
        }
    }
}

/// Diagnostics configuration
#[derive(Debug, Clone, Copy, PartialEq, Eq, Structural)]
pub struct DiagnosticsConfig {
    /// Enable diagnostics for broken links
    pub enable_broken_links: bool,
    /// Enable diagnostics for missing frontmatter
    pub enable_missing_frontmatter: bool,
}

impl Default for DiagnosticsConfig {
    fn default() -> (r: Self)
        ensures
            r == (DiagnosticsConfig {
                enable_broken_links: true,
                enable_missing_frontmatter: false,
            }),
    {
        DiagnosticsConfig { enable_broken_links: true, enable_missing_frontmatter: false }
    }
}

/// All the settings of the server.
#[derive(Debug, Clone, Copy, PartialEq, Eq, Structural)]
pub struct Config {
    /// LSP server settings
    pub server: ServerConfig,
    /// Markdown parsing settings
    pub markdown: MarkdownConfig,
    /// Diagnostics settings
    pub diagnostics: DiagnosticsConfig,
    /// Link resolution settings
    pub links: LinkConfig,
}

/// The settings that hold where none are given.
pub open spec fn default_config() -> Config {
    Config {
        server: ServerConfig { max_files: None, verbose: false },
        markdown: MarkdownConfig { enable_frontmatter: true, validate_links: true },
        diagnostics: DiagnosticsConfig {
            enable_broken_links: true,
            enable_missing_frontmatter: false,
        },
        links: LinkConfig {
            enable_filename_resolution: true,
            generation_style: LinkGenerationStyle::Filename,
        },
    }
}

impl Default for Config {
    fn default() -> (r: Self)
        ensures
            r == default_config(),
    {
        Config {
            server: ServerConfig { max_files: None, verbose: false },
            markdown: MarkdownConfig { enable_frontmatter: true, validate_links: true },
            diagnostics: DiagnosticsConfig {
                enable_broken_links: true,
                enable_missing_frontmatter: false,
            },
            links: LinkConfig {
                enable_filename_resolution: true,
                generation_style: LinkGenerationStyle::Filename,
            },
        }
    }
}

impl Config {
    pub fn new(
        server: ServerConfig,
        markdown: MarkdownConfig,
        diagnostics: DiagnosticsConfig,
        links: LinkConfig,
    ) -> (r: Self)
        ensures
            r == (Config { server, markdown, diagnostics, links }),
    {
        Self { server, markdown, diagnostics, links }
    }

    /// The settings that were read from a file, or the default settings if
    /// the file is missing or cannot be read as settings.
    pub fn from_file_or_default(loaded: Option<Config>) -> (r: Self)
        ensures
            r == match loaded {
                Some(config) => config,
                None => default_config(),
            },
    {
        match loaded {
            Some(config) => config,
            None => Config::default(),
        }
    }
}

} // verus!
