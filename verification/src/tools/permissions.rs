//! What a tool asks before it acts on a target.
use vstd::prelude::*;

verus! {

/// The permission request of one tool for one target. The texts a tool does
/// not set are `None`, for the dialog to fill in.
pub struct ToolPermissionDescriptor {
    pub kind: String,
    pub target: String,
    pub read_only: bool,
    pub destructive: bool,
    pub approval_title: Option<String>,
    pub approval_prompt: Option<String>,
    pub persistent_message: Option<String>,
    pub suggested_pattern: Option<String>,
    pub command_preview: Option<String>,
}

impl ToolPermissionDescriptor {
    /// The tool the request is for.
    pub fn kind(&self) -> (r: &str)
        ensures
            r@ == self.kind@,
    {
        self.kind.as_str()
    }

    /// The target the request is about.
    pub fn target(&self) -> (r: &str)
        ensures
            r@ == self.target@,
    {
        self.target.as_str()
    }

    /// Whether the tool only reads.
    pub fn is_read_only(&self) -> (r: bool)
        ensures
            r == self.read_only,
    {
        self.read_only
    }

    /// Whether the tool may destroy data.
    pub fn is_destructive(&self) -> (r: bool)
        ensures
            r == self.destructive,
    {
        self.destructive
    }
}

} // verus!
