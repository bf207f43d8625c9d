//! What the elaborator reports: structured diagnostics, for a renderer to
//! show.

use crate::source::TextRange;
use vstd::prelude::*;
use vstd::string::StringExecFns;

verus! {

/// How grave a diagnostic is.
#[derive(Debug, Copy, Clone, PartialEq, Eq, Structural)]
pub enum Severity {
    Help,
    Note,
    Warning,
    Error,
    Bug,
}

/// A message: its text.
#[derive(Debug)]
pub struct Message {
    pub text: String,
}

impl View for Message {
    type V = Seq<char>;

    open spec fn view(&self) -> Seq<char> {
        self.text@
    }
}

impl Message {
    /// The message that is the text `text`.
    pub fn text(text: &str) -> (m: Self)
        ensures
            m@ == text@,
    {
        Message { text: String::from_str(text) }
    }

    /// The message with the text `text` after it.
    pub fn then_text(self, text: &str) -> (m: Self)
        ensures
            m@ == self@ + text@,
    {
        Message { text: self.text.concat(text) }
    }
}

/// A range of the source text, with an optional remark on it.
#[derive(Debug)]
pub struct Label {
    pub file_id: usize,
    pub range: TextRange,
    pub message: Option<Message>,
}

/// A diagnostic: a message, the place it is about, and further places that
/// give context.
#[derive(Debug)]
pub struct Diagnostic {
    pub severity: Severity,
    pub message: Message,
    pub primary_label: Label,
    pub secondary_labels: Vec<Label>,
}

impl Label {
    /// A label without a remark.
    pub fn new(file_id: usize, range: TextRange) -> (label: Self)
        ensures
            label.file_id == file_id,
            label.range == range,
            label.message is None,
    {
        Label { file_id, range, message: None }
    }

    /// The label with the remark `message`.
    pub fn with_message(self, message: Message) -> (label: Self)
        ensures
            label.file_id == self.file_id,
            label.range == self.range,
            label.message == Some(message),
    {
        Label { file_id: self.file_id, range: self.range, message: Some(message) }
    }
}

impl Diagnostic {
    /// An error with the given message, about the place that `primary_label`
    /// marks.
    pub fn error(message: Message, primary_label: Label) -> (d: Self)
        ensures
            d.severity == Severity::Error,
            d.message == message,
            d.primary_label == primary_label,
            d.secondary_labels@.len() == 0,
    {
        Diagnostic {
            severity: Severity::Error,
            message,
            primary_label,
            secondary_labels: Vec::new(),
        }
    }

    /// A warning with the given message, about the place that
    /// `primary_label` marks.
    pub fn warning(message: Message, primary_label: Label) -> (d: Self)
        ensures
            d.severity == Severity::Warning,
            d.message == message,
            d.primary_label == primary_label,
            d.secondary_labels@.len() == 0,
    {
        Diagnostic {
            severity: Severity::Warning,
            message,
            primary_label,
            secondary_labels: Vec::new(),
        }
    }

    /// The diagnostic with one more place that gives context.
    pub fn with_secondary_label(self, label: Label) -> (d: Self)
        ensures
            d.severity == self.severity,
            d.message == self.message,
            d.primary_label == self.primary_label,
            d.secondary_labels@ == self.secondary_labels@.push(label),
    {
        let mut secondary_labels = self.secondary_labels;
        secondary_labels.push(label);
        Diagnostic {
            severity: self.severity,
            message: self.message,
            primary_label: self.primary_label,
            secondary_labels,
        }
    }
}

} // verus!
