use vstd::prelude::*;

verus! {

/// The kinds of `Error`, in the order in which they are declared.
#[derive(Clone, Copy, Debug, PartialEq, Eq, Structural)]
pub enum ErrorKind {
    Io,
    Syntax,
    Eof,
}

/// An error of a reader: what kind it is and a message for the user.
#[derive(Debug)]
pub struct Error {
    pub kind: ErrorKind,
    pub message: String,
}

} // verus!
