//! The errors a tool reports, and how they read to the user and the model.
use crate::text::{chars_of, decimal, decimal_u64, extend, extend_str, owned, string_of};
use std::path::PathBuf;
use vstd::prelude::*;

verus! {

/// An I/O error of std (`std::io::Error`), carried as an opaque value.
#[verifier::external_type_specification]
#[verifier::external_body]
pub struct ExIoError(std::io::Error);

/// A parse error of `serde_json` (`serde_json::Error`), carried as an
/// opaque value.
#[verifier::external_type_specification]
#[verifier::external_body]
pub struct ExJsonError(serde_json::Error);

/// How a path prints (`Path::display`); nothing is claimed of the text, a
/// path having no view here.
#[verifier::external_body]
pub(crate) fn path_text(p: &PathBuf) -> String {
    format!("{}", p.display())
}

/// How an I/O error prints (`Display` for `std::io::Error`); nothing is
/// claimed of the text.
#[verifier::external_body]
fn io_error_text(e: &std::io::Error) -> String {
    format!("{}", e)
}

/// How a JSON error prints (`Display` for `serde_json::Error`); nothing is
/// claimed of the text.
#[verifier::external_body]
fn json_error_text(e: &serde_json::Error) -> String {
    format!("{}", e)
}

pub enum ToolError {
    UserRejected { reason: String },
    ToolNotFound { tool: String },
    InvalidArguments { tool: String, message: String },
    ExecutionFailed { message: String },
    PermissionDenied { tool: String },
    SecurityViolation { message: String },
    Timeout { tool: String, seconds: u64 },
    FileNotFound { path: PathBuf },
    ReadFailed { path: PathBuf },
    WriteFailed { path: PathBuf },
    EditFailed { message: String },
    InvalidCommand { message: String },
    SchemaValidationFailed { tool: String, message: String },
    IoError(std::io::Error),
    SerializationError(serde_json::Error),
}

/// How an error reads, for the errors made of texts and numbers only (the
/// others print a path or an outside error, which has no view here).
pub open spec fn error_text(e: ToolError) -> Option<Seq<char>> {
    match e {
        ToolError::UserRejected { reason } => Some("Operation rejected: "@ + reason@),
        ToolError::ToolNotFound { tool } => Some("Tool '"@ + tool@ + "' not found in registry"@),
        ToolError::InvalidArguments { tool, message } => Some(
            "Invalid arguments for tool '"@ + tool@ + "': "@ + message@,
        ),
        ToolError::ExecutionFailed { message } => Some("Tool execution failed: "@ + message@),
        ToolError::PermissionDenied { tool } => Some("Permission denied: "@ + tool@),
        ToolError::SecurityViolation { message } => Some(
            "Path security violation: "@ + message@,
        ),
        ToolError::Timeout { tool, seconds } => Some(
            "Timeout executing tool '"@ + tool@ + "' after "@ + decimal(seconds as nat)
                + " seconds"@,
        ),
        ToolError::EditFailed { message } => Some("Failed to edit file: "@ + message@),
        ToolError::InvalidCommand { message } => Some("Invalid command: "@ + message@),
        ToolError::SchemaValidationFailed { tool, message } => Some(
            "Schema validation failed for tool '"@ + tool@ + "': "@ + message@,
        ),
        _ => None,
    }
}

/// The text `pre + a + mid + b + post`.
fn framed(pre: &str, a: &str, mid: &str, b: &str, post: &str) -> (r: String)
    ensures
        r@ == pre@ + a@ + mid@ + b@ + post@,
        mid@.len() == 0 && b@.len() == 0 && post@.len() == 0 ==> r@ == pre@ + a@,
        b@.len() == 0 && post@.len() == 0 ==> r@ == pre@ + a@ + mid@,
        post@.len() == 0 ==> r@ == pre@ + a@ + mid@ + b@,
{
    proof {
        let e = Seq::<char>::empty();
        assert(pre@ + a@ + e =~= pre@ + a@);
        assert(pre@ + a@ + mid@ + e =~= pre@ + a@ + mid@);
        assert(pre@ + a@ + mid@ + b@ + e =~= pre@ + a@ + mid@ + b@);
    }
    let mut r = chars_of(pre);
    extend_str(&mut r, a);
    extend_str(&mut r, mid);
    extend_str(&mut r, b);
    extend_str(&mut r, post);
    string_of(r.as_slice())
}

impl ToolError {
    pub fn user_rejected(reason: &str) -> (r: Self)
        ensures
            r matches ToolError::UserRejected { reason: x } && x@ == reason@,
    {
        Self::UserRejected { reason: owned(reason) }
    }

    pub fn tool_not_found(tool: &str) -> (r: Self)
        ensures
            r matches ToolError::ToolNotFound { tool: x } && x@ == tool@,
    {
        Self::ToolNotFound { tool: owned(tool) }
    }

    pub fn invalid_arguments(tool: &str, message: &str) -> (r: Self)
        ensures
            r matches ToolError::InvalidArguments { tool: x, message: m } && x@ == tool@ && m@
                == message@,
    {
        Self::InvalidArguments { tool: owned(tool), message: owned(message) }
    }

    pub fn execution_failed(message: &str) -> (r: Self)
        ensures
            r matches ToolError::ExecutionFailed { message: m } && m@ == message@,
    {
        Self::ExecutionFailed { message: owned(message) }
    }

    pub fn permission_denied(tool: &str) -> (r: Self)
        ensures
            r matches ToolError::PermissionDenied { tool: x } && x@ == tool@,
    {
        Self::PermissionDenied { tool: owned(tool) }
    }

    pub fn is_user_rejection(&self) -> (r: bool)
        ensures
            r == (*self is UserRejected),
    {
        match self {
            ToolError::UserRejected { .. } => true,
            _ => false,
        }
    }

    /// How the error reads (see [`error_text`]).
    pub fn message(&self) -> (r: String)
        ensures
            error_text(*self) is Some ==> r@ == error_text(*self)->0,
    {
        proof {
            reveal_strlit("");
        }
        match self {
            ToolError::UserRejected { reason } => framed("Operation rejected: ", reason.as_str(), "", "", ""),
            ToolError::ToolNotFound { tool } => framed("Tool '", tool.as_str(), "' not found in registry", "", ""),
            ToolError::InvalidArguments { tool, message } => framed(
                "Invalid arguments for tool '",
                tool.as_str(),
                "': ",
                message.as_str(),
                "",
            ),
            ToolError::ExecutionFailed { message } => framed("Tool execution failed: ", message.as_str(), "", "", ""),
            ToolError::PermissionDenied { tool } => framed("Permission denied: ", tool.as_str(), "", "", ""),
            ToolError::SecurityViolation { message } => framed(
                "Path security violation: ",
                message.as_str(),
                "",
                "",
                "",
            ),
            ToolError::Timeout { tool, seconds } => {
                let digits = string_of(decimal_u64(*seconds).as_slice());
                framed("Timeout executing tool '", tool.as_str(), "' after ", digits.as_str(), " seconds")
            },
            ToolError::FileNotFound { path } => framed("File not found: ", path_text(path).as_str(), "", "", ""),
            ToolError::ReadFailed { path } => framed("Failed to read file: ", path_text(path).as_str(), "", "", ""),
            ToolError::WriteFailed { path } => framed("Failed to write file: ", path_text(path).as_str(), "", "", ""),
            ToolError::EditFailed { message } => framed("Failed to edit file: ", message.as_str(), "", "", ""),
            ToolError::InvalidCommand { message } => framed("Invalid command: ", message.as_str(), "", "", ""),
            ToolError::SchemaValidationFailed { tool, message } => framed(
                "Schema validation failed for tool '",
                tool.as_str(),
                "': ",
                message.as_str(),
                "",
            ),
            ToolError::IoError(e) => framed("IO error: ", io_error_text(e).as_str(), "", "", ""),
            ToolError::SerializationError(e) => framed("Serialization error: ", json_error_text(e).as_str(), "", "", ""),
        }
    }

    /// The text shown to the user: short for a rejection or a denial, else
    /// the error prefixed with `Error: `.
    pub fn user_facing_message(&self) -> (r: String)
        ensures
            *self is UserRejected ==> r@ == "User rejected"@,
            *self is PermissionDenied ==> r@ == "Permission denied"@,
            !(*self is UserRejected) && !(*self is PermissionDenied) && error_text(*self) is Some
                ==> r@ == "Error: "@ + error_text(*self)->0,
    {
        proof {
            reveal_strlit("");
        }
        match self {
            ToolError::UserRejected { .. } => owned("User rejected"),
            ToolError::PermissionDenied { .. } => owned("Permission denied"),
            _ => {
                let m = self.message();
                framed("Error: ", m.as_str(), "", "", "")
            },
        }
    }

    /// The text handed to the model: which tool was denied, else the error
    /// prefixed with `Error: `.
    pub fn llm_message(&self) -> (r: String)
        ensures
            self matches ToolError::PermissionDenied { tool } ==> r@ == "Permission denied for "@
                + tool@,
            !(*self is PermissionDenied) && error_text(*self) is Some ==> r@ == "Error: "@
                + error_text(*self)->0,
    {
        proof {
            reveal_strlit("");
        }
        match self {
            ToolError::PermissionDenied { tool } => framed("Permission denied for ", tool.as_str(), "", "", ""),
            _ => {
                let m = self.message();
                framed("Error: ", m.as_str(), "", "", "")
            },
        }
    }
}

} // verus!
