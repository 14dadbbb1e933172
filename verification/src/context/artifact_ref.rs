//! References to artifacts (saved tool output) kept in working memory.
use vstd::prelude::*;
use vstd::string::*;
use crate::context::summary::bool_text;
use crate::text::{append_chars, append_str, decimal, decimal_chars, str_chars, string_from_chars};
use crate::tool_result_processor::ToolResultMetadata;

verus! {

/// An artifact: its kind, its path (as text), what it holds, and the size
/// of the output it holds.
#[derive(Debug, Clone, PartialEq, Eq)]
pub struct ContextArtifactRef {
    pub kind: String,
    pub path: String,
    pub description: String,
    pub original_chars: usize,
    pub truncated: bool,
}

pub open spec fn spec_render_artifact(a: ContextArtifactRef) -> Seq<char> {
    "- "@ + a.kind@ + ": "@ + a.path@ + " (original_chars="@ + decimal(a.original_chars as nat)
        + ", truncated="@ + bool_text(a.truncated) + ")"@
}

impl ContextArtifactRef {
    /// The reference to the complete output of one tool call.
    pub fn from_tool_result(path: String, tool_name: &str, metadata: &ToolResultMetadata) -> (r:
        Self)
        ensures
            r.kind@ == "tool_output"@,
            r.path == path,
            r.description@ == "complete output for tool `"@ + tool_name@ + "`"@,
            r.original_chars == metadata.original_chars,
            r.truncated == metadata.truncated,
    {
        let mut d = str_chars("complete output for tool `");
        append_str(&mut d, tool_name);
        append_str(&mut d, "`");
        ContextArtifactRef {
            kind: String::from_str("tool_output"),
            path,
            description: string_from_chars(d.as_slice()),
            original_chars: metadata.original_chars,
            truncated: metadata.truncated,
        }
    }

    /// One list line: kind, path and sizes.
    pub fn render(&self) -> (r: String)
        ensures
            r@ == spec_render_artifact(*self),
    {
        let mut v = str_chars("- ");
        append_str(&mut v, self.kind.as_str());
        append_str(&mut v, ": ");
        append_str(&mut v, self.path.as_str());
        append_str(&mut v, " (original_chars=");
        let n = decimal_chars(self.original_chars as u64);
        append_chars(&mut v, n.as_slice());
        append_str(&mut v, ", truncated=");
        if self.truncated {
            append_str(&mut v, "true");
        } else {
            append_str(&mut v, "false");
        }
        append_str(&mut v, ")");
        string_from_chars(v.as_slice())
    }
}

} // verus!
