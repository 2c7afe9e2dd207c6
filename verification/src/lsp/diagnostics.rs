//! Reporting the diagnostics of a document.

use vstd::prelude::*;
use crate::document::diagnostic_views;
use crate::error::LspError;
use crate::lsp::server::{index_of, Server};
use crate::lsp_types::{
    Diagnostic, DiagnosticView, DocumentDiagnosticParams, FullDocumentDiagnosticReport,
};

verus! {

/// The name under which diagnostics are reported.
pub open spec fn report_id() -> Seq<char> {
    "markdown-lsp"@
}

/// The diagnostics of the document under a URI, as they were found when
/// its text was last read.
pub open spec fn diagnostics_at(lsp: &Server, uri: Seq<char>) -> Result<
    Seq<DiagnosticView>,
    LspError,
> {
    match index_of(lsp.documents.docs(), uri) {
        Some(i) => Ok(diagnostic_views(lsp.documents.docs()[i].diagnostics@)),
        None => Err(LspError::DocumentNotFound),
    }
}

fn copy_diagnostics(items: &Vec<Diagnostic>) -> (out: Vec<Diagnostic>)
    ensures
        diagnostic_views(out@) == diagnostic_views(items@),
{
    let mut out: Vec<Diagnostic> = Vec::new();
    let mut i: usize = 0;
    while i < items.len()
        invariant
            i <= items.len(),
            out@.len() == i,
            forall|j: int| 0 <= j < i ==> (#[trigger] out@[j])@ == items@[j]@,
        decreases items.len() - i,
    {
        let item = &items[i];
        out.push(
            Diagnostic {
                range: item.range,
                severity: item.severity,
                source: item.source.clone(),
                message: item.message.clone(),
            },
        );
        i += 1;
    }
    proof {
        assert(diagnostic_views(out@) =~= diagnostic_views(items@));
    }
    out
}

/// Answers a request for the diagnostics of a document.
pub fn process_diagnostic(lsp: &Server, params: &DocumentDiagnosticParams) -> (r: Result<
    FullDocumentDiagnosticReport,
    LspError,
>)
    ensures
        match r {
            Ok(report) => diagnostics_at(lsp, params.text_document.uri@) == Ok::<
                Seq<DiagnosticView>,
                LspError,
            >(diagnostic_views(report.items@)) && report.result_id is Some
                && report.result_id->0@ == report_id(),
            Err(e) => diagnostics_at(lsp, params.text_document.uri@) == Err::<
                Seq<DiagnosticView>,
                LspError,
            >(e),
        },
{
    let document = match lsp.documents.get_document(&params.text_document.uri) {
        Some(d) => d,
        None => {
            return Err(LspError::DocumentNotFound);
        },
    };
    Ok(
        FullDocumentDiagnosticReport {
            result_id: Some(String::from_str("markdown-lsp")),
            items: copy_diagnostics(&document.diagnostics),
        },
    )
}

} // verus!
