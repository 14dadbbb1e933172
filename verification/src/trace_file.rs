//! Trace archives: their names and places, and what they hold.
use vstd::prelude::*;
use vstd::string::*;
use crate::config::path_join_exec;
use crate::text::{
    append_str, chars_contains_str, chars_ends_with_str, contains_sub, ends_with, matches_at,
    is_ascii_alnum, is_ascii_alnum_exec, str_chars, str_is_blank, string_from_chars, trim,
};
use crate::tool_result_processor::path_join;
use crate::json::{Json, JsonModel};
use crate::trace::{TaskStatus, TraceEventType};

verus! {

pub const TRACE_ARCHIVE_SCHEMA_VERSION: u32 = 1;

pub const TRACE_ARCHIVE_EXTENSION: &'static str = ".sparrow-trace.json";

/// `<cwd>/.sparrow_agent/traces`.
pub open spec fn spec_trace_dir_from_cwd(cwd: Seq<char>) -> Seq<char> {
    path_join(path_join(cwd, ".sparrow_agent"@), "traces"@)
}

pub fn default_trace_dir_from_cwd(cwd: &str) -> (r: String)
    ensures
        r@ == spec_trace_dir_from_cwd(cwd@),
{
    let base = str_chars(cwd);
    let dir = path_join_exec(base.as_slice(), ".sparrow_agent");
    string_from_chars(path_join_exec(dir.as_slice(), "traces").as_slice())
}

/// The trace directory: the configured one when it is not blank, else the
/// default under the working directory.
pub fn default_trace_dir(configured: Option<&str>, cwd: &str) -> (r: String)
    ensures
        r@ == match configured {
            Some(p) => if trim(p@).len() > 0 {
                p@
            } else {
                spec_trace_dir_from_cwd(cwd@)
            },
            None => spec_trace_dir_from_cwd(cwd@),
        },
{
    match configured {
        Some(p) => if !str_is_blank(p) {
            String::from_str(p)
        } else {
            default_trace_dir_from_cwd(cwd)
        },
        None => default_trace_dir_from_cwd(cwd),
    }
}

pub open spec fn is_archive_name_char(c: char) -> bool {
    is_ascii_alnum(c) || c == '_' || c == '-'
}

/// The characters of `s` that may stand in a file name, in order.
pub open spec fn archive_name_chars(s: Seq<char>) -> Seq<char>
    decreases s.len(),
{
    if s.len() == 0 {
        s
    } else {
        let prev = archive_name_chars(s.drop_last());
        if is_archive_name_char(s.last()) {
            prev.push(s.last())
        } else {
            prev
        }
    }
}

/// `<task id>.sparrow-trace.json`, keeping only ASCII letters, digits, `_`
/// and `-` of the id, and `trace` for an id with none of them.
pub open spec fn spec_archive_file_name(task_id: Seq<char>) -> Seq<char> {
    let kept = archive_name_chars(task_id);
    (if kept.len() == 0 {
        "trace"@
    } else {
        kept
    }) + TRACE_ARCHIVE_EXTENSION@
}

pub fn archive_file_name(task_id: &str) -> (r: String)
    ensures
        r@ == spec_archive_file_name(task_id@),
{
    let v = str_chars(task_id);
    let mut kept: Vec<char> = Vec::new();
    let mut i: usize = 0;
    assert(v@.take(0) =~= Seq::<char>::empty());
    while i < v.len()
        invariant
            i <= v@.len(),
            kept@ == archive_name_chars(v@.take(i as int)),
        decreases v.len() - i,
    {
        assert(v@.take(i + 1).drop_last() =~= v@.take(i as int));
        let c = v[i];
        if is_ascii_alnum_exec(c) || c == '_' || c == '-' {
            kept.push(c);
        }
        i = i + 1;
    }
    assert(v@.take(v@.len() as int) =~= v@);
    let mut name = if kept.len() == 0 {
        str_chars("trace")
    } else {
        kept
    };
    append_str(&mut name, TRACE_ARCHIVE_EXTENSION);
    string_from_chars(name.as_slice())
}

/// The path of an archive in `trace_dir`, for a plain archive file name:
/// no `/`, `\` or `..`, and the archive extension.
pub open spec fn spec_safe_archive_file_path(trace_dir: Seq<char>, file_name: Seq<char>) -> Option<Seq<char>> {
    if contains_sub(file_name, "/"@) || contains_sub(file_name, "\\"@) || contains_sub(
        file_name,
        ".."@,
    ) {
        None
    } else if !ends_with(file_name, TRACE_ARCHIVE_EXTENSION@) {
        None
    } else {
        Some(path_join(trace_dir, file_name))
    }
}

pub fn safe_archive_file_path(trace_dir: &str, file_name: &str) -> (r: Option<String>)
    ensures
        match r {
            Some(p) => spec_safe_archive_file_path(trace_dir@, file_name@) == Some(p@),
            None => spec_safe_archive_file_path(trace_dir@, file_name@) is None,
        },
{
    let f = str_chars(file_name);
    if chars_contains_str(f.as_slice(), "/") || chars_contains_str(f.as_slice(), "\\")
        || chars_contains_str(f.as_slice(), "..") {
        return None;
    }
    if !chars_ends_with_str(f.as_slice(), TRACE_ARCHIVE_EXTENSION) {
        return None;
    }
    let dir = str_chars(trace_dir);
    Some(string_from_chars(path_join_exec(dir.as_slice(), file_name).as_slice()))
}

proof fn lemma_archive_name_chars(s: Seq<char>)
    ensures
        forall|j: int|
            0 <= j < archive_name_chars(s).len() ==> is_archive_name_char(#[trigger] archive_name_chars(s)[j]),
    decreases s.len(),
{
    if s.len() > 0 {
        let prev = archive_name_chars(s.drop_last());
        lemma_archive_name_chars(s.drop_last());
        if is_archive_name_char(s.last()) {
            assert forall|j: int| 0 <= j < prev.len() + 1 implies is_archive_name_char(
                #[trigger] prev.push(s.last())[j],
            ) by {
                if j < prev.len() {
                    assert(prev.push(s.last())[j] == prev[j]);
                }
            }
        }
    }
}

/// Every archive file name passes the path check: the archive of any task
/// is found in the trace directory under its own name.
pub proof fn lemma_archive_file_name_is_safe(task_id: Seq<char>, trace_dir: Seq<char>)
    ensures
        spec_safe_archive_file_path(trace_dir, spec_archive_file_name(task_id)) == Some(
            path_join(trace_dir, spec_archive_file_name(task_id)),
        ),
{
    let kept = archive_name_chars(task_id);
    lemma_archive_name_chars(task_id);
    reveal_strlit("trace");
    reveal_strlit(".sparrow-trace.json");
    reveal_strlit("/");
    reveal_strlit("\\");
    reveal_strlit("..");
    let base = if kept.len() == 0 {
        "trace"@
    } else {
        kept
    };
    let ext = TRACE_ARCHIVE_EXTENSION@;
    let f = spec_archive_file_name(task_id);
    assert(f == base + ext);
    assert forall|j: int| 0 <= j < base.len() implies is_archive_name_char(#[trigger] base[j]) by {
        if kept.len() == 0 {
            assert(is_archive_name_char("trace"@[j]));
        }
    }
    assert forall|j: int| 0 <= j < ext.len() implies (#[trigger] ext[j]) != '/' && ext[j] != '\\' by {}
    assert forall|j: int| 0 <= j < ext.len() - 1 implies !((#[trigger] ext[j]) == '.' && ext[j + 1] == '.') by {}
    assert forall|i: int| !matches_at(f, "/"@, i) by {
        if matches_at(f, "/"@, i) {
            assert(f.subrange(i, i + 1)[0] == f[i]);
            if i < base.len() {
                assert(f[i] == base[i]);
            } else {
                assert(f[i] == ext[i - base.len()]);
            }
        }
    }
    assert forall|i: int| !matches_at(f, "\\"@, i) by {
        if matches_at(f, "\\"@, i) {
            assert(f.subrange(i, i + 1)[0] == f[i]);
            if i < base.len() {
                assert(f[i] == base[i]);
            } else {
                assert(f[i] == ext[i - base.len()]);
            }
        }
    }
    assert forall|i: int| !matches_at(f, ".."@, i) by {
        if matches_at(f, ".."@, i) {
            assert(f.subrange(i, i + 2)[0] == f[i]);
            assert(f.subrange(i, i + 2)[1] == f[i + 1]);
            if i < base.len() {
                assert(f[i] == base[i]);
            } else {
                assert(f[i] == ext[i - base.len()]);
                assert(f[i + 1] == ext[i + 1 - base.len()]);
            }
        }
    }
    assert(f.subrange(f.len() - ext.len(), f.len() as int) =~= ext);
}

/// The two forms an archive file comes in: the plain trace of schema 1,
/// read as it is, and the compacted trace of schema 2, which is expanded
/// when read and is the form written.
#[derive(Debug, Clone, Copy, PartialEq, Eq, Structural)]
pub enum ArchiveFormat {
    Plain,
    Compacted,
}

/// The form of an archive by its schema version; other versions are
/// refused.
pub fn check_schema_version(version: u32) -> (r: Result<ArchiveFormat, u32>)
    ensures
        version == TRACE_ARCHIVE_SCHEMA_VERSION ==> r == Ok::<ArchiveFormat, u32>(ArchiveFormat::Plain),
        version == crate::trace_compaction::TRACE_ARCHIVE_V2_SCHEMA_VERSION ==> r == Ok::<ArchiveFormat, u32>(
            ArchiveFormat::Compacted,
        ),
        version != TRACE_ARCHIVE_SCHEMA_VERSION && version
            != crate::trace_compaction::TRACE_ARCHIVE_V2_SCHEMA_VERSION ==> r == Err::<ArchiveFormat, u32>(version),
{
    if version == TRACE_ARCHIVE_SCHEMA_VERSION {
        Ok(ArchiveFormat::Plain)
    } else if version == crate::trace_compaction::TRACE_ARCHIVE_V2_SCHEMA_VERSION {
        Ok(ArchiveFormat::Compacted)
    } else {
        Err(version)
    }
}

/// An event as an archive holds it: the payload as a JSON value and the
/// timestamp as the RFC 3339 text it is written with.
#[derive(Debug)]
pub struct ArchivedEvent {
    pub seq: u64,
    pub task_id: String,
    pub conversation_id: String,
    pub timestamp: String,
    pub event_type: TraceEventType,
    pub payload: Json,
}

pub struct ArchivedEventModel {
    pub seq: u64,
    pub task_id: Seq<char>,
    pub conversation_id: Seq<char>,
    pub timestamp: Seq<char>,
    pub event_type: TraceEventType,
    pub payload: JsonModel,
}

impl View for ArchivedEvent {
    type V = ArchivedEventModel;

    open spec fn view(&self) -> ArchivedEventModel {
        ArchivedEventModel {
            seq: self.seq,
            task_id: self.task_id@,
            conversation_id: self.conversation_id@,
            timestamp: self.timestamp@,
            event_type: self.event_type,
            payload: self.payload@,
        }
    }
}

pub open spec fn event_models(events: Seq<ArchivedEvent>) -> Seq<ArchivedEventModel> {
    events.map_values(|e: ArchivedEvent| e@)
}

impl ArchivedEvent {
    pub fn clone_event(&self) -> (e: Self)
        ensures
            e@ == self@,
    {
        ArchivedEvent {
            seq: self.seq,
            task_id: self.task_id.clone(),
            conversation_id: self.conversation_id.clone(),
            timestamp: self.timestamp.clone(),
            event_type: self.event_type,
            payload: self.payload.deep_clone(),
        }
    }
}

/// The task of an archive.
#[derive(Debug)]
pub struct ArchivedTask {
    pub task_id: String,
    pub conversation_id: String,
    pub status: TaskStatus,
    pub created_at: String,
    pub updated_at: String,
    pub events: Vec<ArchivedEvent>,
}

/// A trace archive: the schema version, when and from where it was
/// exported, and the task.  Times are kept as the RFC 3339 text they are
/// written with.
#[derive(Debug)]
pub struct TraceArchive {
    pub schema_version: u32,
    pub exported_at: String,
    pub source: String,
    pub task: ArchivedTask,
}

} // verus!
