use vstd::prelude::*;

verus! {

/// The abstract content of a diagnostic: the scientific field it names and its message.
pub struct DiagnosticView {
    pub field: Seq<char>,
    pub message: Seq<char>,
}

/// A diagnostic expressed in the configured scientific vocabulary.
#[derive(Debug, PartialEq, Eq)]
pub struct ScientificDiagnostic {
    field: String,
    message: String,
}

impl View for ScientificDiagnostic {
    type V = DiagnosticView;

    closed spec fn view(&self) -> DiagnosticView {
        DiagnosticView { field: self.field@, message: self.message@ }
    }
}

/// The diagnostic with the given field and message.
pub open spec fn diag(field: Seq<char>, message: Seq<char>) -> DiagnosticView {
    DiagnosticView { field, message }
}

impl ScientificDiagnostic {
    /// Builds a diagnostic from borrowed field and message text.
    pub fn new(field: &str, message: &str) -> (d: Self)
        ensures
            d@ == diag(field@, message@),
    {
        ScientificDiagnostic { field: field.to_owned(), message: message.to_owned() }
    }

    /// Builds a diagnostic from owned field and message text.
    pub fn from_parts(field: String, message: String) -> (d: Self)
        ensures
            d@ == diag(field@, message@),
    {
        ScientificDiagnostic { field, message }
    }

    pub fn field(&self) -> (f: &str)
        ensures
            f@ == self@.field,
    {
        self.field.as_str()
    }

    pub fn message(&self) -> (m: &str)
        ensures
            m@ == self@.message,
    {
        self.message.as_str()
    }

    /// The display text `field: message`.
    pub fn to_text(&self) -> (t: String)
        ensures
            t@ == self@.field + ": "@ + self@.message,
    {
        let mut t = self.field.clone();
        t.append(": ");
        t.append(self.message.as_str());
        t
    }

    pub fn duplicate(&self) -> (d: Self)
        ensures
            d@ == self@,
    {
        ScientificDiagnostic { field: self.field.clone(), message: self.message.clone() }
    }
}

impl Clone for ScientificDiagnostic {
    fn clone(&self) -> (d: Self)
        ensures
            d@ == self@,
    {
        self.duplicate()
    }
}

} // verus!
