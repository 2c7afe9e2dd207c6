//! What can go wrong in answering the editor.

use vstd::prelude::*;

verus! {

/// The ways in which an operation can fail.
#[derive(Debug, Clone, Copy, PartialEq, Eq, Structural)]
pub enum LspError {
    /// The operation names a document that the store does not hold.
    DocumentNotFound,
    /// The target of a link cannot be turned into the URI of a document.
    ResolutionFailed,
    /// The editor sent a change of a range of a document; only changes of
    /// the whole text are supported.
    Unsupported,
    /// A frame or a message is malformed.
    Protocol,
    /// There is nothing that the request could go to.
    DefinitionNotFound,
    /// An update carries a version that is not later than the document's.
    StaleVersion,
}

/// The text that describes each error.
pub open spec fn error_text(error: LspError) -> Seq<char> {
    match error {
        LspError::DocumentNotFound => "Document not found"@,
        LspError::ResolutionFailed => "Link target could not be resolved"@,
        LspError::Unsupported => "Incremental changes are not supported"@,
        LspError::Protocol => "Malformed message"@,
        LspError::DefinitionNotFound => "Definition not found"@,
        LspError::StaleVersion => "Update is older than the document"@,
    }
}

impl LspError {
    /// The text that describes the error.
    pub fn message(&self) -> (m: String)
        ensures
            m@ == error_text(*self),
    {
        match self {
            LspError::DocumentNotFound => String::from_str("Document not found"),
            LspError::ResolutionFailed => String::from_str("Link target could not be resolved"),
            LspError::Unsupported => String::from_str("Incremental changes are not supported"),
            LspError::Protocol => String::from_str("Malformed message"),
            LspError::DefinitionNotFound => String::from_str("Definition not found"),
            LspError::StaleVersion => String::from_str("Update is older than the document"),
        }
    }
}

} // verus!
