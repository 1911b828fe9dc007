//! Diagnostics: a severity, an optional code, a message, labelled source
//! spans and optional help and note texts.

use vstd::prelude::*;
use crate::span::Span;

verus! {

/// Severity of a diagnostic.
#[derive(Debug, Clone, Copy, PartialEq, Eq, Structural)]
pub enum DiagnosticLevel {
    Error,
    Warning,
    Note,
    /// Internal compiler error.
    Ice,
}

/// A message attached to a span of source text.
#[derive(Debug, Clone)]
pub struct Label {
    pub span: Span,
    pub message: String,
    /// Primary labels are underlined with `^`, secondary ones with `-`.
    pub is_primary: bool,
}

impl Label {
    /// A primary label.
    pub fn primary(span: Span, message: &str) -> (r: Label)
        ensures
            r.span == span,
            r.message@ == message@,
            r.is_primary,
    {
        Label { span, message: message.to_owned(), is_primary: true }
    }

    /// A secondary label.
    pub fn secondary(span: Span, message: &str) -> (r: Label)
        ensures
            r.span == span,
            r.message@ == message@,
            !r.is_primary,
    {
        Label { span, message: message.to_owned(), is_primary: false }
    }
}

/// A diagnostic reported to the user.
#[derive(Debug, Clone)]
pub struct Diagnostic {
    pub level: DiagnosticLevel,
    pub code: Option<String>,
    pub message: String,
    pub labels: Vec<Label>,
    pub help: Option<String>,
    pub note: Option<String>,
}

impl Diagnostic {
    /// A diagnostic with the given parts and no labels, help or note.
    pub open spec fn bare(self, level: DiagnosticLevel, code: Option<Seq<char>>, message: Seq<char>) -> bool {
        &&& self.level == level
        &&& match code {
            Some(c) => self.code is Some && self.code->0@ == c,
            None => self.code is None,
        }
        &&& self.message@ == message
        &&& self.labels@.len() == 0
        &&& self.help is None
        &&& self.note is None
    }

    /// An error with a code.
    pub fn error(code: &str, message: &str) -> (r: Diagnostic)
        ensures
            r.bare(DiagnosticLevel::Error, Some(code@), message@),
    {
        Diagnostic {
            level: DiagnosticLevel::Error,
            code: Some(code.to_owned()),
            message: message.to_owned(),
            labels: Vec::new(),
            help: None,
            note: None,
        }
    }

    /// A warning with a code.
    pub fn warning(code: &str, message: &str) -> (r: Diagnostic)
        ensures
            r.bare(DiagnosticLevel::Warning, Some(code@), message@),
    {
        Diagnostic {
            level: DiagnosticLevel::Warning,
            code: Some(code.to_owned()),
            message: message.to_owned(),
            labels: Vec::new(),
            help: None,
            note: None,
        }
    }

    /// A note without a code.
    pub fn note(message: &str) -> (r: Diagnostic)
        ensures
            r.bare(DiagnosticLevel::Note, None, message@),
    {
        Diagnostic {
            level: DiagnosticLevel::Note,
            code: None,
            message: message.to_owned(),
            labels: Vec::new(),
            help: None,
            note: None,
        }
    }

    /// An internal compiler error without a code.
    pub fn ice(message: &str) -> (r: Diagnostic)
        ensures
            r.bare(DiagnosticLevel::Ice, None, message@),
    {
        Diagnostic {
            level: DiagnosticLevel::Ice,
            code: None,
            message: message.to_owned(),
            labels: Vec::new(),
            help: None,
            note: None,
        }
    }

    /// The same diagnostic with one more label at the end.
    pub fn with_label(self, label: Label) -> (r: Diagnostic)
        ensures
            r.level == self.level,
            r.code == self.code,
            r.message == self.message,
            r.labels@ == self.labels@.push(label),
            r.help == self.help,
            r.note == self.note,
    {
        let mut d = self;
        d.labels.push(label);
        d
    }

    /// The same diagnostic with a help text.
    pub fn with_help(self, help: &str) -> (r: Diagnostic)
        ensures
            r.level == self.level,
            r.code == self.code,
            r.message == self.message,
            r.labels == self.labels,
            r.help is Some && r.help->0@ == help@,
            r.note == self.note,
    {
        let mut d = self;
        d.help = Some(help.to_owned());
        d
    }

    /// The same diagnostic with a note text.
    pub fn with_note(self, note: &str) -> (r: Diagnostic)
        ensures
            r.level == self.level,
            r.code == self.code,
            r.message == self.message,
            r.labels == self.labels,
            r.help == self.help,
            r.note is Some && r.note->0@ == note@,
    {
        let mut d = self;
        d.note = Some(note.to_owned());
        d
    }
}

} // verus!
