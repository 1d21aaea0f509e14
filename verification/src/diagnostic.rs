//! The reports that reading metadata gives rise to.

use vstd::prelude::*;

verus! {

/// Why a metadata line was passed over.
#[derive(Clone, Copy, Debug, PartialEq, Eq, Structural)]
pub enum DiagnosticKind {
    /// The line sets a field that holds a value already.
    Duplicate,
    /// The line starts with no known key.
    Unknown,
}

/// The fixed text that opens a report of the given kind.
pub open spec fn label_of(kind: DiagnosticKind) -> Seq<char> {
    match kind {
        DiagnosticKind::Duplicate => "Duplicate package info: "@,
        DiagnosticKind::Unknown => "Unknown package info: "@,
    }
}

/// A report on one metadata line: why it was passed over, and its full text.
#[derive(Debug, PartialEq, Eq)]
pub struct Diagnostic {
    pub kind: DiagnosticKind,
    pub line: String,
}

/// What a `Diagnostic` stands for in contracts.
pub struct DiagnosticView {
    pub kind: DiagnosticKind,
    pub line: Seq<char>,
}

impl DiagnosticView {
    /// The report as it is written out: label, line, line break.
    pub open spec fn message(self) -> Seq<char> {
        label_of(self.kind) + self.line + "\n"@
    }
}

impl View for Diagnostic {
    type V = DiagnosticView;

    open spec fn view(&self) -> DiagnosticView {
        DiagnosticView { kind: self.kind, line: self.line@ }
    }
}

impl Clone for Diagnostic {
    fn clone(&self) -> (res: Self)
        ensures
            res@ == self@,
    {
        Diagnostic { kind: self.kind, line: self.line.clone() }
    }
}

impl DiagnosticKind {
    /// The fixed text that opens a report of this kind.
    pub fn label(self) -> (s: &'static str)
        ensures
            s@ == label_of(self),
    {
        match self {
            DiagnosticKind::Duplicate => "Duplicate package info: ",
            DiagnosticKind::Unknown => "Unknown package info: ",
        }
    }
}

impl Diagnostic {
    /// The report as it is written out: label, line, line break.
    pub fn message(&self) -> (s: String)
        ensures
            s@ == self@.message(),
    {
        let mut s = String::from_str(self.kind.label());
        s.append(self.line.as_str());
        s.append("\n");
        s
    }
}

} // verus!
