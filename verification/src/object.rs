//! Object names, and the value that a failed operation hands back.

use vstd::prelude::*;

verus! {

/// The object name that stands for "no such object". Handed to a publish it
/// asserts that the remote branch does not exist yet.
pub const NON_EXISTANT_OBJECT: &'static str = "0000000000000000000000000000000000000000";

/// The name of a commit. Its view is the text of the name.
#[derive(Debug, PartialEq, Eq)]
pub struct ObjectName {
    name: String,
}

impl View for ObjectName {
    type V = Seq<char>;

    closed spec fn view(&self) -> Seq<char> {
        self.name@
    }
}

impl Clone for ObjectName {
    fn clone(&self) -> (r: Self)
        ensures
            r@ == self@,
    {
        ObjectName { name: self.name.clone() }
    }
}

impl ObjectName {
    /// The view of the name that stands for "no such object".
    pub open spec fn absent() -> Seq<char> {
        NON_EXISTANT_OBJECT@
    }

    pub fn new(name: String) -> (r: Self)
        ensures
            r@ == name@,
    {
        ObjectName { name }
    }

    /// The name that stands for "no such object".
    pub fn none() -> (r: Self)
        ensures
            r@ == ObjectName::absent(),
    {
        ObjectName { name: String::from_str(NON_EXISTANT_OBJECT) }
    }

    pub fn as_str(&self) -> (r: &str)
        ensures
            r@ == self@,
    {
        self.name.as_str()
    }

    /// Whether two names are the same text.
    pub fn same(&self, other: &ObjectName) -> (r: bool)
        ensures
            r == (self@ == other@),
    {
        self.name == other.name
    }
}

/// What a failed operation hands back: a numeric status and the bytes that
/// the failing step wrote to its two output streams.
#[derive(Debug, PartialEq, Eq)]
pub struct Status {
    pub code: i32,
    pub stdout: Vec<u8>,
    pub stderr: Vec<u8>,
}

pub struct StatusView {
    pub code: int,
    pub stdout: Seq<u8>,
    pub stderr: Seq<u8>,
}

impl View for Status {
    type V = StatusView;

    open spec fn view(&self) -> StatusView {
        StatusView { code: self.code as int, stdout: self.stdout@, stderr: self.stderr@ }
    }
}

impl Status {
    /// The failure with the given status and nothing captured.
    pub open spec fn bare(code: int) -> StatusView {
        StatusView { code, stdout: Seq::empty(), stderr: Seq::empty() }
    }

    /// The failure with status 1 whose error stream holds the given text.
    pub open spec fn told(text: Seq<char>) -> StatusView {
        StatusView { code: 1, stdout: Seq::empty(), stderr: vstd::utf8::encode_utf8(text) }
    }

    pub fn new(code: i32, stdout: Vec<u8>, stderr: Vec<u8>) -> (r: Self)
        ensures
            r@ == (StatusView { code: code as int, stdout: stdout@, stderr: stderr@ }),
    {
        Status { code, stdout, stderr }
    }

    pub fn with(code: i32) -> (r: Self)
        ensures
            r@ == Status::bare(code as int),
    {
        Status { code, stdout: Vec::new(), stderr: Vec::new() }
    }

    /// The failure with status 1 that says `text` on its error stream.
    pub fn saying(text: &str) -> (r: Self)
        ensures
            r@ == Status::told(text@),
    {
        Status { code: 1, stdout: Vec::new(), stderr: text.as_bytes_vec() }
    }
}

} // verus!
