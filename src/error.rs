use vstd::prelude::*;

verus! {

/// The four classes of failure of the codec.
#[derive(Debug, Clone, Copy, PartialEq, Eq, Structural)]
pub enum ErrorKind {
    /// The field description and the array or value disagree on shape or kind.
    SchemaMismatch,
    /// An event or a value that the target column cannot take.
    ProtocolMisuse,
    /// A read past the logical length of a column.
    Exhausted,
    /// A value that does not fit the representation (offset overflow, dates).
    Representation,
}

/// An error of the codec, with the path of the column where it occurred.
#[derive(Debug, Clone)]
pub struct Error {
    pub kind: ErrorKind,
    pub message: &'static str,
    pub field: Option<String>,
}

impl Error {
    pub fn new(kind: ErrorKind, message: &'static str) -> (r: Error)
        ensures
            r.kind == kind,
            r.field is None,
    {
        Error { kind, message, field: None }
    }

    /// Record the column path, unless an inner column already did.
    pub fn annotate(self, path: &String) -> (r: Error)
        ensures
            r.kind == self.kind,
            self.field is Some ==> r.field == self.field,
            self.field is None ==> r.field == Some(*path),
            r.field is Some,
    {
        match self.field {
            Some(_) => self,
            None => Error { kind: self.kind, message: self.message, field: Some(path.clone()) },
        }
    }
}

} // verus!
