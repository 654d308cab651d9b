use vstd::prelude::*;

verus! {

/// The diagnostics collected by one pass: errors and warnings, each in the
/// order in which they were recorded.
#[derive(Debug)]
pub struct Report {
    errors: Vec<String>,
    warnings: Vec<String>,
}

/// The texts of a list of messages.
pub open spec fn texts(messages: Seq<String>) -> Seq<Seq<char>> {
    Seq::new(messages.len(), |i: int| messages[i]@)
}

impl Report {
    /// The error messages, oldest first.
    pub closed spec fn error_texts(&self) -> Seq<Seq<char>> {
        texts(self.errors@)
    }

    /// The warning messages, oldest first.
    pub closed spec fn warning_texts(&self) -> Seq<Seq<char>> {
        texts(self.warnings@)
    }

    /// A report with nothing recorded.
    pub fn new() -> (r: Self)
        ensures
            r.error_texts() == Seq::<Seq<char>>::empty(),
            r.warning_texts() == Seq::<Seq<char>>::empty(),
    {
        Self { errors: Vec::new(), warnings: Vec::new() }
    }

    /// Records the error `msg`.
    pub fn error(&mut self, msg: String)
        ensures
            final(self).error_texts() == old(self).error_texts().push(msg@),
            final(self).warning_texts() == old(self).warning_texts(),
    {
        self.errors.push(msg);
    }

    /// Records the warning `msg`.
    pub fn warn(&mut self, msg: String)
        ensures
            final(self).warning_texts() == old(self).warning_texts().push(msg@),
            final(self).error_texts() == old(self).error_texts(),
    {
        self.warnings.push(msg);
    }

    /// The error messages, oldest first.
    pub fn errors(&self) -> (list: &Vec<String>)
        ensures
            texts(list@) == self.error_texts(),
    {
        &self.errors
    }

    /// The warning messages, oldest first.
    pub fn warnings(&self) -> (list: &Vec<String>)
        ensures
            texts(list@) == self.warning_texts(),
    {
        &self.warnings
    }

    /// Whether no error was recorded.
    pub fn ok(&self) -> (b: bool)
        ensures
            b == (self.error_texts().len() == 0),
    {
        self.errors.len() == 0
    }
}

} // verus!
