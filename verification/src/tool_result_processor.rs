//! Bounding the size of tool output that is injected into the context.
//!
//! Output of at most `max_injected_chars` characters is kept as it is.
//! Longer output is replaced by a notice and a preview, and the complete
//! output is saved to an artifact file; `plan` says what to write, and the
//! caller writes it.
use vstd::prelude::*;
use vstd::string::*;
use crate::text::{
    append_chars, append_str, decimal, decimal_chars, is_ascii_alnum, is_ascii_alnum_exec,
    new_ulid_text, slice_vec, str_chars, string_from_chars, take_chars, take_chars_vec,
};

verus! {

pub const DEFAULT_TOOL_RESULT_MAX_CHARS: usize = 20_000;

pub const DEFAULT_TOOL_OUTPUT_DIR: &'static str = ".sparrow_agent/tool_outputs";

#[derive(Debug, Clone)]
pub struct ToolResultProcessorConfig {
    pub max_injected_chars: usize,
    pub output_dir: String,
}

impl Default for ToolResultProcessorConfig {
    fn default() -> (c: Self)
        ensures
            c.max_injected_chars == DEFAULT_TOOL_RESULT_MAX_CHARS,
            c.output_dir@ == DEFAULT_TOOL_OUTPUT_DIR@,
    {
        ToolResultProcessorConfig {
            max_injected_chars: DEFAULT_TOOL_RESULT_MAX_CHARS,
            output_dir: String::from_str(DEFAULT_TOOL_OUTPUT_DIR),
        }
    }
}

/// What was done to one tool result.  The artifact path is text.
#[derive(Debug, Clone)]
pub struct ToolResultMetadata {
    pub original_chars: usize,
    pub injected_chars: usize,
    pub truncated: bool,
    pub artifact_path: Option<String>,
}

pub struct MetadataModel {
    pub original_chars: usize,
    pub injected_chars: usize,
    pub truncated: bool,
    pub artifact_path: Option<Seq<char>>,
}

impl View for ToolResultMetadata {
    type V = MetadataModel;

    open spec fn view(&self) -> MetadataModel {
        MetadataModel {
            original_chars: self.original_chars,
            injected_chars: self.injected_chars,
            truncated: self.truncated,
            artifact_path: match self.artifact_path {
                Some(p) => Some(p@),
                None => None,
            },
        }
    }
}

impl ToolResultMetadata {
    pub fn artifact_path_display(&self) -> (r: Option<String>)
        ensures
            match r {
                Some(p) => self@.artifact_path == Some(p@),
                None => self@.artifact_path is None,
            },
    {
        match &self.artifact_path {
            Some(p) => Some(p.clone()),
            None => None,
        }
    }

    pub fn clone_metadata(&self) -> (r: Self)
        ensures
            r@ == self@,
    {
        ToolResultMetadata {
            original_chars: self.original_chars,
            injected_chars: self.injected_chars,
            truncated: self.truncated,
            artifact_path: match &self.artifact_path {
                Some(p) => Some(p.clone()),
                None => None,
            },
        }
    }
}

#[derive(Debug)]
pub struct ToolResultInput {
    pub tool_call_id: String,
    pub tool_name: String,
    pub content: String,
}

#[derive(Debug, Clone)]
pub struct ProcessedToolResult {
    pub content: String,
    pub metadata: ToolResultMetadata,
}

/// The outcome of processing one result: what to inject, and, for output
/// that was cut, the artifact file to write (its path and its content).
#[derive(Debug)]
pub struct ToolResultPlan {
    pub processed: ProcessedToolResult,
    pub artifact: Option<(String, String)>,
}

pub open spec fn is_safe_name_char(c: char) -> bool {
    is_ascii_alnum(c) || c == '-' || c == '_'
}

pub open spec fn safe_chars(s: Seq<char>) -> Seq<char> {
    s.map_values(|c: char| if is_safe_name_char(c) {
        c
    } else {
        '_'
    })
}

/// `s` without leading and trailing `_`.
pub open spec fn trim_underscores(s: Seq<char>) -> Seq<char>
    decreases s.len(),
{
    if s.len() == 0 {
        s
    } else if s[0] == '_' {
        trim_underscores(s.drop_first())
    } else if s.last() == '_' {
        trim_underscores(s.drop_last())
    } else {
        s
    }
}

/// A file-name part: unsafe characters become `_`, the result is trimmed of
/// `_` and cut to 80 characters, and an empty result becomes `unknown`.
pub open spec fn sanitize_filename_part(value: Seq<char>) -> Seq<char> {
    let t = trim_underscores(safe_chars(value));
    if t.len() == 0 {
        "unknown"@
    } else {
        take_chars(t, 80)
    }
}

fn trim_underscores_exec(v: &[char]) -> (r: Vec<char>)
    ensures
        r@ == trim_underscores(v@),
{
    let mut lo: usize = 0;
    let mut hi: usize = v.len();
    assert(v@.subrange(0, v@.len() as int) =~= v@);
    while lo < hi && (v[lo] == '_' || v[hi - 1] == '_')
        invariant
            lo <= hi <= v@.len(),
            trim_underscores(v@) == trim_underscores(v@.subrange(lo as int, hi as int)),
        decreases hi - lo,
    {
        let ghost s = v@.subrange(lo as int, hi as int);
        if v[lo] == '_' {
            assert(s.drop_first() =~= v@.subrange(lo + 1, hi as int));
            lo = lo + 1;
        } else {
            assert(s.drop_last() =~= v@.subrange(lo as int, hi - 1));
            hi = hi - 1;
        }
    }
    slice_vec(v, lo, hi)
}

pub fn sanitize_filename_part_exec(value: &str) -> (r: Vec<char>)
    ensures
        r@ == sanitize_filename_part(value@),
{
    let v = str_chars(value);
    let mut mapped: Vec<char> = Vec::new();
    let mut i: usize = 0;
    while i < v.len()
        invariant
            i <= v@.len(),
            mapped@ == safe_chars(v@.take(i as int)),
        decreases v.len() - i,
    {
        let c = v[i];
        if is_ascii_alnum_exec(c) || c == '-' || c == '_' {
            mapped.push(c);
        } else {
            mapped.push('_');
        }
        i = i + 1;
        assert(mapped@ =~= safe_chars(v@.take(i as int)));
    }
    assert(v@.take(v@.len() as int) =~= v@);
    let t = trim_underscores_exec(mapped.as_slice());
    if t.len() == 0 {
        str_chars("unknown")
    } else {
        take_chars_vec(t.as_slice(), 80)
    }
}

/// The notice that replaces output that was cut, before its preview.
pub open spec fn truncation_notice(tool_name: Seq<char>, original_chars: nat, path: Seq<char>) -> Seq<
    char,
> {
    "工具输出过长：本次工具调用 `"@ + tool_name + "` 的结果总长度为 "@ + decimal(original_chars)
        + " 个字符，已经被截断。完整的输出已经被保存在文件 `"@ + path
        + "` 中。请考虑以更精确的参数调用该函数，或者更换更适合检索、分页或摘要的函数。\n\n--- 截断后的输出预览 ---\n"@
}

/// The file name of an artifact: `<ulid>-<tool name>-<tool call id>.txt`,
/// both names sanitised.
pub open spec fn is_artifact_path(
    path: Seq<char>,
    dir: Seq<char>,
    tool_name: Seq<char>,
    tool_call_id: Seq<char>,
) -> bool {
    exists|id: Seq<char>|
        #![trigger id.len()]
        id.len() == 26 && path == path_join(
            dir,
            id + "-"@ + sanitize_filename_part(tool_name) + "-"@ + sanitize_filename_part(
                tool_call_id,
            ) + ".txt"@,
        )
}

/// `Path::join` of a relative name without separators.
pub open spec fn path_join(dir: Seq<char>, name: Seq<char>) -> Seq<char> {
    if dir.len() == 0 {
        name
    } else if dir.last() == '/' {
        dir + name
    } else {
        dir + "/"@ + name
    }
}

impl ToolResultProcessor {
    pub fn new(config: ToolResultProcessorConfig) -> (p: Self)
        ensures
            p.config == config,
    {
        ToolResultProcessor { config }
    }

    fn artifact_path(&self, tool_call_id: &str, tool_name: &str) -> (r: Vec<char>)
        ensures
            is_artifact_path(r@, self.config.output_dir@, tool_name@, tool_call_id@),
    {
        let id = new_ulid_text();
        let name = sanitize_filename_part_exec(tool_name);
        let call = sanitize_filename_part_exec(tool_call_id);
        let mut file = str_chars(id.as_str());
        append_str(&mut file, "-");
        append_chars(&mut file, name.as_slice());
        append_str(&mut file, "-");
        append_chars(&mut file, call.as_slice());
        append_str(&mut file, ".txt");
        let mut r = str_chars(self.config.output_dir.as_str());
        if r.len() > 0 && r[r.len() - 1] != '/' {
            append_str(&mut r, "/");
        }
        append_chars(&mut r, file.as_slice());
        assert(r@ == path_join(self.config.output_dir@, file@));
        r
    }

    /// Keeps output of at most `max_injected_chars` characters.  Longer output
    /// is replaced by the notice followed by as much of its beginning as fits
    /// in `max_injected_chars`, and is to be saved in full to a new artifact
    /// file in the output directory.
    pub fn plan(&self, input: ToolResultInput) -> (r: ToolResultPlan)
        ensures
            r.processed.metadata.original_chars == input.content@.len(),
            input.content@.len() <= self.config.max_injected_chars ==> {
                &&& r.processed.content@ == input.content@
                &&& r.processed.metadata@ == (MetadataModel {
                    original_chars: input.content@.len() as usize,
                    injected_chars: input.content@.len() as usize,
                    truncated: false,
                    artifact_path: None,
                })
                &&& r.artifact is None
            },
            input.content@.len() > self.config.max_injected_chars ==> {
                &&& r.artifact matches Some((path, saved)) && saved@ == input.content@
                    && is_artifact_path(
                    path@,
                    self.config.output_dir@,
                    input.tool_name@,
                    input.tool_call_id@,
                ) && r.processed.metadata@.artifact_path == Some(path@) && ({
                    let notice = truncation_notice(
                        input.tool_name@,
                        input.content@.len(),
                        path@,
                    );
                    let budget = if self.config.max_injected_chars >= notice.len() {
                        self.config.max_injected_chars - notice.len()
                    } else {
                        0
                    };
                    r.processed.content@ == notice + take_chars(input.content@, budget as nat)
                })
                &&& r.processed.metadata.truncated
                &&& r.processed.metadata.injected_chars == r.processed.content@.len()
            },
            (r.artifact matches Some((path, _)) && truncation_notice(
                input.tool_name@,
                input.content@.len(),
                path@,
            ).len() <= self.config.max_injected_chars)
                ==> r.processed.metadata.injected_chars <= self.config.max_injected_chars,
    {
        let chars = str_chars(input.content.as_str());
        let original_chars = chars.len();
        if original_chars <= self.config.max_injected_chars {
            return ToolResultPlan {
                processed: ProcessedToolResult {
                    metadata: ToolResultMetadata {
                        original_chars,
                        injected_chars: original_chars,
                        truncated: false,
                        artifact_path: None,
                    },
                    content: input.content,
                },
                artifact: None,
            };
        }
        let path = self.artifact_path(input.tool_call_id.as_str(), input.tool_name.as_str());
        let mut notice = str_chars("工具输出过长：本次工具调用 `");
        append_str(&mut notice, input.tool_name.as_str());
        append_str(&mut notice, "` 的结果总长度为 ");
        let n = decimal_chars(original_chars as u64);
        append_chars(&mut notice, n.as_slice());
        append_str(&mut notice, " 个字符，已经被截断。完整的输出已经被保存在文件 `");
        append_chars(&mut notice, path.as_slice());
        append_str(
            &mut notice,
            "` 中。请考虑以更精确的参数调用该函数，或者更换更适合检索、分页或摘要的函数。\n\n--- 截断后的输出预览 ---\n",
        );
        let budget = self.config.max_injected_chars.saturating_sub(notice.len());
        let preview = take_chars_vec(chars.as_slice(), budget);
        let mut content = notice;
        append_chars(&mut content, preview.as_slice());
        let injected_chars = content.len();
        let path_text = string_from_chars(path.as_slice());
        let saved_path = string_from_chars(path.as_slice());
        ToolResultPlan {
            processed: ProcessedToolResult {
                content: string_from_chars(content.as_slice()),
                metadata: ToolResultMetadata {
                    original_chars,
                    injected_chars,
                    truncated: true,
                    artifact_path: Some(path_text),
                },
            },
            artifact: Some((saved_path, input.content)),
        }
    }
}

#[derive(Debug, Clone)]
pub struct ToolResultProcessor {
    pub config: ToolResultProcessorConfig,
}

impl Default for ToolResultProcessor {
    fn default() -> (p: Self)
        ensures
            p.config.max_injected_chars == DEFAULT_TOOL_RESULT_MAX_CHARS,
            p.config.output_dir@ == DEFAULT_TOOL_OUTPUT_DIR@,
    {
        ToolResultProcessor::new(ToolResultProcessorConfig::default())
    }
}

} // verus!
