//! The error that materialising a descriptor can end in.

use vstd::prelude::*;
use crate::text::{append_str, debug_list, debug_list_text, string_views};

verus! {

/// Why creating a descriptor failed; each variant carries a message.
#[derive(Debug, Clone, PartialEq, Eq)]
pub enum CreateError {
    IoError(String),
    GitError(String),
    TmuxError(String),
    InvalidDescriptor(String),
    ResourceNotFound(String),
}

/// The text that describes an error: a fixed prefix per variant, then the message.
pub open spec fn create_error_text(e: CreateError) -> Seq<char> {
    match e {
        CreateError::IoError(m) => "IO error: "@ + m@,
        CreateError::GitError(m) => "Git error: "@ + m@,
        CreateError::TmuxError(m) => "Tmux error: "@ + m@,
        CreateError::InvalidDescriptor(m) => "Invalid descriptor: "@ + m@,
        CreateError::ResourceNotFound(m) => "Resource not found: "@ + m@,
    }
}

impl CreateError {
    /// The human-readable text of the error (what `Display` shows).
    pub fn message(&self) -> (s: String)
        ensures
            s@ == create_error_text(*self),
    {
        let (prefix, m) = match self {
            CreateError::IoError(m) => ("IO error: ", m),
            CreateError::GitError(m) => ("Git error: ", m),
            CreateError::TmuxError(m) => ("Tmux error: ", m),
            CreateError::InvalidDescriptor(m) => ("Invalid descriptor: ", m),
            CreateError::ResourceNotFound(m) => ("Resource not found: ", m),
        };
        let mut s = prefix.to_owned();
        append_str(&mut s, m.as_str());
        s
    }
}

/// The error of a git step that failed: what was being done, then what git
/// printed on its error stream (`<what>: <stderr>`).
pub fn git_failure(what: &str, stderr: &str) -> (e: CreateError)
    ensures
        e == CreateError::GitError(e->GitError_0) && e->GitError_0@ == what@ + ": "@ + stderr@,
{
    let mut m = what.to_owned();
    append_str(&mut m, ": ");
    append_str(&mut m, stderr);
    CreateError::GitError(m)
}

/// The error of a git call that failed, naming its arguments as `{:?}`
/// shows them: `Git command [..] failed: <stderr>`.
pub fn git_command_failure(args: &Vec<String>, stderr: &str) -> (e: CreateError)
    ensures
        e == CreateError::GitError(e->GitError_0) && e->GitError_0@ == "Git command "@
            + debug_list_text(string_views(args@)) + " failed: "@ + stderr@,
{
    let mut m = "Git command ".to_owned();
    let listed = debug_list(args);
    append_str(&mut m, listed.as_str());
    append_str(&mut m, " failed: ");
    append_str(&mut m, stderr);
    CreateError::GitError(m)
}

} // verus!
