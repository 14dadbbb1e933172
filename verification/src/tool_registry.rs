//! The rules of the tool registry: which definitions the model is offered,
//! which calls may run, and what a failed call reports.  Running the
//! providers is left to the caller.
use vstd::prelude::*;
use vstd::string::*;
use crate::api::{tool_def_views, ToolDef, ToolDefModel};
use crate::text::{append_str, str_chars, str_eq, string_from_chars, string_views};
use crate::tool_result_processor::{MetadataModel, ToolResultMetadata};
use crate::json::{
    json_number, json_str, lemma_member_models, member, member_models, object_of, set_member,
    set_member_exec, text_field, text_of, Json, JsonModel,
};
use crate::text::{decimal, str_is_blank, trim};
use crate::trace::{snapshot_json, snapshot_of_text, JsonSnapshot, TraceEventType, DEFAULT_SNAPSHOT_MAX_BYTES};
use crate::api::ToolCall;

verus! {

/// The result of one tool call, as handed back to the model.
#[derive(Debug, Clone)]
pub struct ToolExecutionResult {
    pub tool_call_id: String,
    pub content: String,
    pub metadata: ToolResultMetadata,
}

/// Why a call did not run.
#[derive(Debug, Clone, PartialEq, Eq)]
pub enum ToolCallError {
    NotAllowed { name: String },
    UnknownTool { name: String },
    Failed { message: String },
}

pub open spec fn spec_tool_error_text(e: ToolCallError) -> Seq<char> {
    match e {
        ToolCallError::NotAllowed { name } => "tool '"@ + name@ + "' is not allowed in this agent context"@,
        ToolCallError::UnknownTool { name } => "unknown tool: "@ + name@,
        ToolCallError::Failed { message } => message@,
    }
}

impl ToolCallError {
    pub fn describe(&self) -> (s: String)
        ensures
            s@ == spec_tool_error_text(*self),
    {
        match self {
            ToolCallError::NotAllowed { name } => {
                let mut v = str_chars("tool '");
                append_str(&mut v, name.as_str());
                append_str(&mut v, "' is not allowed in this agent context");
                string_from_chars(v.as_slice())
            },
            ToolCallError::UnknownTool { name } => {
                let mut v = str_chars("unknown tool: ");
                append_str(&mut v, name.as_str());
                string_from_chars(v.as_slice())
            },
            ToolCallError::Failed { message } => message.clone(),
        }
    }
}

/// The definitions whose name is allowed, in order.
pub open spec fn allowed_defs(defs: Seq<ToolDefModel>, allowed: Option<Seq<Seq<char>>>) -> Seq<ToolDefModel>
    decreases defs.len(),
{
    if defs.len() == 0 {
        Seq::empty()
    } else {
        let prev = allowed_defs(defs.drop_last(), allowed);
        if name_allowed(allowed, defs.last().function.name) {
            prev.push(defs.last())
        } else {
            prev
        }
    }
}

pub open spec fn name_allowed(allowed: Option<Seq<Seq<char>>>, name: Seq<char>) -> bool {
    match allowed {
        None => true,
        Some(a) => a.contains(name),
    }
}

pub open spec fn opt_names(o: Option<Vec<String>>) -> Option<Seq<Seq<char>>> {
    match o {
        Some(v) => Some(string_views(v@)),
        None => None,
    }
}

/// The message and metadata of a failed call.
pub open spec fn failure_text(error: Seq<char>) -> Seq<char> {
    "Tool execution failed: "@ + error
}

/// The tools offered to the model, and the names that may run (all when
/// there is no restriction).
pub struct ToolRegistry {
    pub definitions: Vec<ToolDef>,
    pub allowed_tool_names: Option<Vec<String>>,
}

fn strings_contain(v: &Vec<String>, s: &str) -> (b: bool)
    ensures
        b == string_views(v@).contains(s@),
{
    let mut i: usize = 0;
    while i < v.len()
        invariant
            i <= v@.len(),
            forall|k: int| 0 <= k < i ==> v@[k]@ != s@,
        decreases v.len() - i,
    {
        if str_eq(v[i].as_str(), s) {
            assert(string_views(v@)[i as int] == s@);
            return true;
        }
        i = i + 1;
    }
    assert forall|k: int| 0 <= k < string_views(v@).len() implies string_views(v@)[k] != s@ by {
        assert(string_views(v@)[k] == v@[k]@);
    }
    false
}

impl ToolRegistry {
    pub fn new() -> (r: Self)
        ensures
            r.definitions@.len() == 0,
            r.allowed_tool_names is None,
    {
        ToolRegistry { definitions: Vec::new(), allowed_tool_names: None }
    }

    pub fn definitions(&self) -> (r: &[ToolDef])
        ensures
            r@ == self.definitions@,
    {
        self.definitions.as_slice()
    }

    /// Whether a tool may run here.
    pub fn tool_is_allowed(&self, tool_name: &str) -> (b: bool)
        ensures
            b == name_allowed(opt_names(self.allowed_tool_names), tool_name@),
    {
        match &self.allowed_tool_names {
            None => true,
            Some(a) => strings_contain(a, tool_name),
        }
    }

    /// Adds a provider's definitions, keeping only the allowed ones.
    pub fn add_provider_definitions(&mut self, provider_definitions: &Vec<ToolDef>)
        ensures
            final(self).allowed_tool_names == old(self).allowed_tool_names,
            tool_def_views(final(self).definitions@) == tool_def_views(old(self).definitions@)
                + allowed_defs(tool_def_views(provider_definitions@), opt_names(old(self).allowed_tool_names)),
    {
        let ghost start = tool_def_views(self.definitions@);
        let ghost allowed = opt_names(self.allowed_tool_names);
        let mut i: usize = 0;
        assert(tool_def_views(provider_definitions@).take(0) =~= Seq::<ToolDefModel>::empty());
        while i < provider_definitions.len()
            invariant
                i <= provider_definitions@.len(),
                allowed == opt_names(self.allowed_tool_names),
                self.allowed_tool_names == old(self).allowed_tool_names,
                tool_def_views(self.definitions@) == start + allowed_defs(
                    tool_def_views(provider_definitions@).take(i as int),
                    allowed,
                ),
            decreases provider_definitions.len() - i,
        {
            let ghost ds = tool_def_views(provider_definitions@);
            assert(ds.take(i + 1).drop_last() =~= ds.take(i as int));
            assert(ds.take(i + 1).last() == provider_definitions@[i as int]@);
            let d = &provider_definitions[i];
            if self.tool_is_allowed(d.function.name.as_str()) {
                let ghost before = tool_def_views(self.definitions@);
                self.definitions.push(d.clone_def());
                assert(tool_def_views(self.definitions@) =~= before.push(d@));
            }
            i = i + 1;
        }
        assert(tool_def_views(provider_definitions@).take(provider_definitions@.len() as int)
            =~= tool_def_views(provider_definitions@));
    }

    /// From now on only the named tools are offered and may run.
    pub fn restrict_to_allowed_tools(&mut self, allowed_tool_names: Vec<String>)
        ensures
            opt_names(final(self).allowed_tool_names) == Some(string_views(allowed_tool_names@)),
            tool_def_views(final(self).definitions@) == allowed_defs(
                tool_def_views(old(self).definitions@),
                Some(string_views(allowed_tool_names@)),
            ),
    {
        let mut old_defs: Vec<ToolDef> = Vec::new();
        std::mem::swap(&mut old_defs, &mut self.definitions);
        self.allowed_tool_names = Some(allowed_tool_names);
        let ghost allowed = opt_names(self.allowed_tool_names);
        let mut i: usize = 0;
        assert(tool_def_views(old_defs@).take(0) =~= Seq::<ToolDefModel>::empty());
        assert(tool_def_views(self.definitions@) =~= Seq::<ToolDefModel>::empty());
        while i < old_defs.len()
            invariant
                i <= old_defs@.len(),
                allowed == opt_names(self.allowed_tool_names),
                allowed == Some(string_views(allowed_tool_names@)),
                tool_def_views(self.definitions@) == allowed_defs(
                    tool_def_views(old_defs@).take(i as int),
                    allowed,
                ),
            decreases old_defs.len() - i,
        {
            let ghost ds = tool_def_views(old_defs@);
            assert(ds.take(i + 1).drop_last() =~= ds.take(i as int));
            assert(ds.take(i + 1).last() == old_defs@[i as int]@);
            let d = &old_defs[i];
            if self.tool_is_allowed(d.function.name.as_str()) {
                let ghost before = tool_def_views(self.definitions@);
                self.definitions.push(d.clone_def());
                assert(tool_def_views(self.definitions@) =~= before.push(d@));
            }
            i = i + 1;
        }
        assert(tool_def_views(old_defs@).take(old_defs@.len() as int) =~= tool_def_views(old_defs@));
    }

    /// A call may run only when its tool is allowed.
    pub fn check_call(&self, tool_name: &str) -> (r: Result<(), ToolCallError>)
        ensures
            r is Ok <==> name_allowed(opt_names(self.allowed_tool_names), tool_name@),
            r matches Err(e) ==> (e matches ToolCallError::NotAllowed { name } && name@ == tool_name@),
    {
        if self.tool_is_allowed(tool_name) {
            Ok(())
        } else {
            Err(ToolCallError::NotAllowed { name: String::from_str(tool_name) })
        }
    }
}

/// What a failed call hands back to the model: the failure text, counted as
/// both its original and its injected length, not truncated.
pub fn failure_result(tool_call_id: &str, error: &str) -> (r: ToolExecutionResult)
    ensures
        r.tool_call_id@ == tool_call_id@,
        r.content@ == failure_text(error@),
        r.metadata@ == (MetadataModel {
            original_chars: failure_text(error@).len() as usize,
            injected_chars: failure_text(error@).len() as usize,
            truncated: false,
            artifact_path: None,
        }),
{
    let mut v = str_chars("Tool execution failed: ");
    append_str(&mut v, error);
    let chars = v.len();
    ToolExecutionResult {
        tool_call_id: String::from_str(tool_call_id),
        content: string_from_chars(v.as_slice()),
        metadata: ToolResultMetadata {
            original_chars: chars,
            injected_chars: chars,
            truncated: false,
            artifact_path: None,
        },
    }
}


// ---------------------------------------------------------------------------
// Trace payloads of tool calls.
// ---------------------------------------------------------------------------

/// The child task a tool started, read from its output.
#[derive(Debug)]
pub struct ToolChildTraceMetadata {
    pub child_task_id: String,
    pub child_conversation_id: Option<String>,
}

pub open spec fn nonblank_text(o: Option<Seq<char>>) -> Option<Seq<char>> {
    match o {
        Some(t) => if trim(t).len() == 0 {
            None
        } else {
            Some(t)
        },
        None => None,
    }
}

/// `child_trace_metadata_from_content`, on the output read as JSON when it
/// is JSON: a non-blank `child_task_id` names the child task, with a
/// non-blank `child_conversation_id` when there is one.
pub open spec fn child_trace_of(parsed: Option<JsonModel>) -> Option<(Seq<char>, Option<Seq<char>>)> {
    match parsed {
        Some(v) => match nonblank_text(text_of(v, "child_task_id"@)) {
            Some(t) => Some((t, nonblank_text(text_of(v, "child_conversation_id"@)))),
            None => None,
        },
        None => None,
    }
}

fn nonblank_field(v: &Json, key: &str) -> (r: Option<String>)
    ensures
        crate::json::opt_text(r) == nonblank_text(text_of(v@, key@)),
{
    match text_field(v, key) {
        Some(t) => if str_is_blank(t.as_str()) {
            None
        } else {
            Some(t)
        },
        None => None,
    }
}

pub fn child_trace_metadata_from_content(parsed: Option<&Json>) -> (r: Option<ToolChildTraceMetadata>)
    ensures
        match r {
            Some(m) => child_trace_of(
                match parsed {
                    Some(v) => Some(v@),
                    None => None,
                },
            ) == Some((m.child_task_id@, crate::json::opt_text(m.child_conversation_id))),
            None => child_trace_of(
                match parsed {
                    Some(v) => Some(v@),
                    None => None,
                },
            ) is None,
        },
{
    let value = match parsed {
        Some(v) => v,
        None => return None,
    };
    proof {
        reveal_strlit("child_task_id");
        reveal_strlit("child_conversation_id");
    }
    let child_task_id = match nonblank_field(value, "child_task_id") {
        Some(t) => t,
        None => return None,
    };
    let child_conversation_id = nonblank_field(value, "child_conversation_id");
    Some(ToolChildTraceMetadata { child_task_id, child_conversation_id })
}

pub open spec fn text_or_null_of(o: Option<Seq<char>>) -> JsonModel {
    match o {
        Some(s) => JsonModel::Str(s),
        None => JsonModel::Null,
    }
}

/// The `output_metadata` of a completed call.
pub open spec fn metadata_json(m: MetadataModel) -> JsonModel {
    JsonModel::Object(
        seq![
            ("artifact_path"@, text_or_null_of(m.artifact_path)),
            ("injected_chars"@, JsonModel::Number(decimal(m.injected_chars as nat))),
            ("original_chars"@, JsonModel::Number(decimal(m.original_chars as nat))),
            ("truncated"@, JsonModel::Bool(m.truncated)),
        ],
    )
}

pub fn tool_result_metadata_json(metadata: &ToolResultMetadata) -> (j: Json)
    ensures
        j@ == metadata_json(metadata@),
{
    let path = match metadata.artifact_path_display() {
        Some(p) => Json::Str(p),
        None => Json::Null,
    };
    let mut ms: Vec<(String, Json)> = Vec::new();
    ms.push(member("artifact_path", path));
    ms.push(member("injected_chars", json_number(metadata.injected_chars as u64)));
    ms.push(member("original_chars", json_number(metadata.original_chars as u64)));
    ms.push(member("truncated", Json::Bool(metadata.truncated)));
    proof {
        lemma_member_models(ms@);
        reveal_strlit("artifact_path");
        reveal_strlit("injected_chars");
        reveal_strlit("original_chars");
        reveal_strlit("truncated");
        assert(member_models(ms@) =~= metadata_json(metadata@)->Object_0);
    }
    object_of(ms)
}

/// The payload of a started call: its node, the model output it belongs
/// to, its place in that output, its id and name, and its arguments.
pub open spec fn started_call_json(
    node_id: Seq<char>,
    parent_model_output_id: Seq<char>,
    index: nat,
    tool_call_id: Seq<char>,
    name: Seq<char>,
    arguments: crate::trace::SnapshotModel,
) -> JsonModel {
    JsonModel::Object(
        seq![
            ("arguments"@, snapshot_json(arguments)),
            ("index"@, JsonModel::Number(decimal(index))),
            ("name"@, JsonModel::Str(name)),
            ("node_id"@, JsonModel::Str(node_id)),
            ("parent_model_output_id"@, JsonModel::Str(parent_model_output_id)),
            ("tool_call_id"@, JsonModel::Str(tool_call_id)),
        ],
    )
}

pub fn tool_call_started_payload(
    node_id: &str,
    parent_model_output_id: &str,
    index: usize,
    tool_call_id: &str,
    name: &str,
    arguments: &JsonSnapshot,
) -> (j: Json)
    ensures
        j@ == started_call_json(
            node_id@,
            parent_model_output_id@,
            index as nat,
            tool_call_id@,
            name@,
            arguments@,
        ),
{
    let mut ms: Vec<(String, Json)> = Vec::new();
    ms.push(member("arguments", arguments.to_json()));
    ms.push(member("index", json_number(index as u64)));
    ms.push(member("name", json_str(name)));
    ms.push(member("node_id", json_str(node_id)));
    ms.push(member("parent_model_output_id", json_str(parent_model_output_id)));
    ms.push(member("tool_call_id", json_str(tool_call_id)));
    proof {
        lemma_member_models(ms@);
        reveal_strlit("arguments");
        reveal_strlit("index");
        reveal_strlit("name");
        reveal_strlit("node_id");
        reveal_strlit("parent_model_output_id");
        reveal_strlit("tool_call_id");
        assert(member_models(ms@) =~= started_call_json(
            node_id@,
            parent_model_output_id@,
            index as nat,
            tool_call_id@,
            name@,
            arguments@,
        )->Object_0);
    }
    object_of(ms)
}

/// `tool_call_completed_payload`: the node, the duration, the output and
/// its metadata, and the child task with its conversation when the tool
/// started one.
pub open spec fn completed_call_json(
    node_id: Seq<char>,
    duration_ms: u64,
    output: crate::trace::SnapshotModel,
    metadata: MetadataModel,
    child: Option<(Seq<char>, Option<Seq<char>>)>,
) -> JsonModel {
    let base = JsonModel::Object(
        seq![
            ("duration_ms"@, JsonModel::Number(decimal(duration_ms as nat))),
            ("node_id"@, JsonModel::Str(node_id)),
            ("output"@, snapshot_json(output)),
            ("output_metadata"@, metadata_json(metadata)),
        ],
    );
    match child {
        Some((task, conversation)) => {
            let with_task = set_member(base, "child_task_id"@, JsonModel::Str(task));
            match conversation {
                Some(c) => set_member(with_task, "child_conversation_id"@, JsonModel::Str(c)),
                None => with_task,
            }
        },
        None => base,
    }
}

pub open spec fn child_view(child: Option<&ToolChildTraceMetadata>) -> Option<(Seq<char>, Option<Seq<char>>)> {
    match child {
        Some(c) => Some((c.child_task_id@, crate::json::opt_text(c.child_conversation_id))),
        None => None,
    }
}

pub fn tool_call_completed_payload(
    node_id: &str,
    duration_ms: u64,
    output: &JsonSnapshot,
    metadata: &ToolResultMetadata,
    child_trace: Option<&ToolChildTraceMetadata>,
) -> (j: Json)
    ensures
        j@ == completed_call_json(node_id@, duration_ms, output@, metadata@, child_view(child_trace)),
{
    let mut ms: Vec<(String, Json)> = Vec::new();
    ms.push(member("duration_ms", json_number(duration_ms)));
    ms.push(member("node_id", json_str(node_id)));
    ms.push(member("output", output.to_json()));
    ms.push(member("output_metadata", tool_result_metadata_json(metadata)));
    proof {
        lemma_member_models(ms@);
        reveal_strlit("duration_ms");
        reveal_strlit("node_id");
        reveal_strlit("output");
        reveal_strlit("output_metadata");
        reveal_strlit("child_task_id");
        reveal_strlit("child_conversation_id");
        assert(member_models(ms@) =~= seq![
            ("duration_ms"@, JsonModel::Number(decimal(duration_ms as nat))),
            ("node_id"@, JsonModel::Str(node_id@)),
            ("output"@, snapshot_json(output@)),
            ("output_metadata"@, metadata_json(metadata@)),
        ]);
    }
    let mut payload = object_of(ms);
    match child_trace {
        Some(child) => {
            set_member_exec(&mut payload, "child_task_id", Json::Str(child.child_task_id.clone()));
            match &child.child_conversation_id {
                Some(c) => {
                    set_member_exec(&mut payload, "child_conversation_id", Json::Str(c.clone()));
                },
                None => {},
            }
        },
        None => {},
    }
    payload
}

/// The payload of a failed call: its node, the duration and the error.
pub open spec fn failed_call_json(node_id: Seq<char>, duration_ms: u64, error: Seq<char>) -> JsonModel {
    JsonModel::Object(
        seq![
            ("duration_ms"@, JsonModel::Number(decimal(duration_ms as nat))),
            ("error"@, JsonModel::Str(error)),
            ("node_id"@, JsonModel::Str(node_id)),
        ],
    )
}

pub fn tool_call_failed_payload(node_id: &str, duration_ms: u64, error: &str) -> (j: Json)
    ensures
        j@ == failed_call_json(node_id@, duration_ms, error@),
{
    let mut ms: Vec<(String, Json)> = Vec::new();
    ms.push(member("duration_ms", json_number(duration_ms)));
    ms.push(member("error", json_str(error)));
    ms.push(member("node_id", json_str(node_id)));
    proof {
        lemma_member_models(ms@);
        reveal_strlit("duration_ms");
        reveal_strlit("error");
        reveal_strlit("node_id");
        assert(member_models(ms@) =~= failed_call_json(node_id@, duration_ms, error@)->Object_0);
    }
    object_of(ms)
}


/// `child_trace_metadata_from_content` on a tool's raw output: the output is
/// read as JSON with `serde_json` first.
pub fn child_trace_metadata_from_text(content: &str) -> (r: Option<ToolChildTraceMetadata>)
    ensures
        match r {
            Some(m) => child_trace_of(crate::json::json_parse(content@)) == Some(
                (m.child_task_id@, crate::json::opt_text(m.child_conversation_id)),
            ),
            None => child_trace_of(crate::json::json_parse(content@)) is None,
        },
{
    let parsed = crate::json::parse_json(content);
    match &parsed {
        Some(v) => child_trace_metadata_from_content(Some(v)),
        None => child_trace_metadata_from_content(None),
    }
}

pub open spec fn child_of(child: Option<ToolChildTraceMetadata>) -> Option<(Seq<char>, Option<Seq<char>>)> {
    match child {
        Some(c) => Some((c.child_task_id@, crate::json::opt_text(c.child_conversation_id))),
        None => None,
    }
}

/// A trace event to record: its type and payload.
#[derive(Debug)]
pub struct TraceEventDraft {
    pub event_type: TraceEventType,
    pub payload: Json,
}

/// How one traced tool call ended: its processed output with the output's
/// metadata and the child task the tool started, or its error; with the
/// time it took.
#[derive(Debug)]
pub enum ToolOutcome {
    Completed {
        content: String,
        metadata: ToolResultMetadata,
        child_trace: Option<ToolChildTraceMetadata>,
        duration_ms: u64,
    },
    Failed { error: String, duration_ms: u64 },
}

/// The `tool_call.started` events of one model output's calls, in call
/// order: each with its node, its place and its arguments as a snapshot.
pub fn tool_call_started_events(
    calls: &Vec<ToolCall>,
    node_ids: &Vec<String>,
    parent_model_output_id: &str,
) -> (ev: Vec<TraceEventDraft>)
    requires
        node_ids@.len() == calls@.len(),
    ensures
        ev@.len() == calls@.len(),
        forall|i: int|
            0 <= i < calls@.len() ==> (#[trigger] ev@[i]).event_type == TraceEventType::ToolCallStarted
                && ev@[i].payload@ == started_call_json(
                node_ids@[i]@,
                parent_model_output_id@,
                i as nat,
                calls@[i].id@,
                calls@[i].function.name@,
                snapshot_of_text(calls@[i].function.arguments@, DEFAULT_SNAPSHOT_MAX_BYTES),
            ),
{
    let mut ev: Vec<TraceEventDraft> = Vec::new();
    let mut i: usize = 0;
    while i < calls.len()
        invariant
            i <= calls@.len(),
            node_ids@.len() == calls@.len(),
            ev@.len() == i,
            forall|k: int|
                0 <= k < i ==> (#[trigger] ev@[k]).event_type == TraceEventType::ToolCallStarted
                    && ev@[k].payload@ == started_call_json(
                    node_ids@[k]@,
                    parent_model_output_id@,
                    k as nat,
                    calls@[k].id@,
                    calls@[k].function.name@,
                    snapshot_of_text(calls@[k].function.arguments@, DEFAULT_SNAPSHOT_MAX_BYTES),
                ),
        decreases calls.len() - i,
    {
        let call = &calls[i];
        let arguments = JsonSnapshot::from_json_text(call.function.arguments.as_str(), DEFAULT_SNAPSHOT_MAX_BYTES);
        let payload = tool_call_started_payload(
            node_ids[i].as_str(),
            parent_model_output_id,
            i,
            call.id.as_str(),
            call.function.name.as_str(),
            &arguments,
        );
        ev.push(TraceEventDraft { event_type: TraceEventType::ToolCallStarted, payload });
        i = i + 1;
    }
    ev
}

/// The event that ends a call: `tool_call.completed` with the output as a
/// snapshot, its metadata and the child task, or `tool_call.failed` with
/// the error.
pub fn tool_call_finished_event(node_id: &str, outcome: &ToolOutcome) -> (e: TraceEventDraft)
    ensures
        match outcome {
            ToolOutcome::Completed { content, metadata, child_trace, duration_ms } => e.event_type
                == TraceEventType::ToolCallCompleted && e.payload@ == completed_call_json(
                node_id@,
                *duration_ms,
                snapshot_of_text(content@, DEFAULT_SNAPSHOT_MAX_BYTES),
                metadata@,
                child_of(*child_trace),
            ),
            ToolOutcome::Failed { error, duration_ms } => e.event_type == TraceEventType::ToolCallFailed
                && e.payload@ == failed_call_json(node_id@, *duration_ms, error@),
        },
{
    match outcome {
        ToolOutcome::Completed { content, metadata, child_trace, duration_ms } => {
            let output = JsonSnapshot::from_json_text(content.as_str(), DEFAULT_SNAPSHOT_MAX_BYTES);
            let payload = tool_call_completed_payload(node_id, *duration_ms, &output, metadata, child_trace.as_ref());
            TraceEventDraft { event_type: TraceEventType::ToolCallCompleted, payload }
        },
        ToolOutcome::Failed { error, duration_ms } => TraceEventDraft {
            event_type: TraceEventType::ToolCallFailed,
            payload: tool_call_failed_payload(node_id, *duration_ms, error.as_str()),
        },
    }
}

/// The events of one round of traced calls, as a sequence: every call's
/// `tool_call.started` event first (all calls start before any finishes),
/// then the event that ends each call, in call order.
pub fn tool_call_events(
    calls: &Vec<ToolCall>,
    node_ids: &Vec<String>,
    parent_model_output_id: &str,
    outcomes: &Vec<ToolOutcome>,
) -> (ev: Vec<TraceEventDraft>)
    requires
        node_ids@.len() == calls@.len(),
        outcomes@.len() == calls@.len(),
    ensures
        ev@.len() == 2 * calls@.len(),
        forall|i: int|
            0 <= i < calls@.len() ==> (#[trigger] ev@[i]).event_type == TraceEventType::ToolCallStarted
                && ev@[i].payload@ == started_call_json(
                node_ids@[i]@,
                parent_model_output_id@,
                i as nat,
                calls@[i].id@,
                calls@[i].function.name@,
                snapshot_of_text(calls@[i].function.arguments@, DEFAULT_SNAPSHOT_MAX_BYTES),
            ),
        forall|i: int|
            0 <= i < calls@.len() ==> match #[trigger] outcomes@[i] {
                ToolOutcome::Completed { content, metadata, child_trace, duration_ms } => ev@[calls@.len()
                    + i].event_type == TraceEventType::ToolCallCompleted && ev@[calls@.len() + i].payload@
                    == completed_call_json(
                    node_ids@[i]@,
                    duration_ms,
                    snapshot_of_text(content@, DEFAULT_SNAPSHOT_MAX_BYTES),
                    metadata@,
                    child_of(child_trace),
                ),
                ToolOutcome::Failed { error, duration_ms } => ev@[calls@.len() + i].event_type
                    == TraceEventType::ToolCallFailed && ev@[calls@.len() + i].payload@ == failed_call_json(
                    node_ids@[i]@,
                    duration_ms,
                    error@,
                ),
            },
{
    let mut ev = tool_call_started_events(calls, node_ids, parent_model_output_id);
    let ghost started = ev@;
    let mut i: usize = 0;
    while i < outcomes.len()
        invariant
            i <= outcomes@.len(),
            outcomes@.len() == calls@.len(),
            node_ids@.len() == calls@.len(),
            started.len() == calls@.len(),
            ev@.len() == calls@.len() + i,
            forall|k: int| 0 <= k < calls@.len() ==> ev@[k] == started[k],
            forall|k: int|
                0 <= k < calls@.len() ==> (#[trigger] started[k]).event_type == TraceEventType::ToolCallStarted
                    && started[k].payload@ == started_call_json(
                    node_ids@[k]@,
                    parent_model_output_id@,
                    k as nat,
                    calls@[k].id@,
                    calls@[k].function.name@,
                    snapshot_of_text(calls@[k].function.arguments@, DEFAULT_SNAPSHOT_MAX_BYTES),
                ),
            forall|k: int|
                0 <= k < i ==> match #[trigger] outcomes@[k] {
                    ToolOutcome::Completed { content, metadata, child_trace, duration_ms } => ev@[calls@.len()
                        + k].event_type == TraceEventType::ToolCallCompleted && ev@[calls@.len() + k].payload@
                        == completed_call_json(
                        node_ids@[k]@,
                        duration_ms,
                        snapshot_of_text(content@, DEFAULT_SNAPSHOT_MAX_BYTES),
                        metadata@,
                        child_of(child_trace),
                    ),
                    ToolOutcome::Failed { error, duration_ms } => ev@[calls@.len() + k].event_type
                        == TraceEventType::ToolCallFailed && ev@[calls@.len() + k].payload@ == failed_call_json(
                        node_ids@[k]@,
                        duration_ms,
                        error@,
                    ),
                },
        decreases outcomes.len() - i,
    {
        let e = tool_call_finished_event(node_ids[i].as_str(), &outcomes[i]);
        ev.push(e);
        i = i + 1;
    }
    assert forall|k: int| 0 <= k < calls@.len() implies (#[trigger] ev@[k]).event_type
        == TraceEventType::ToolCallStarted && ev@[k].payload@ == started_call_json(
        node_ids@[k]@,
        parent_model_output_id@,
        k as nat,
        calls@[k].id@,
        calls@[k].function.name@,
        snapshot_of_text(calls@[k].function.arguments@, DEFAULT_SNAPSHOT_MAX_BYTES),
    ) by {
        assert(ev@[k] == started[k]);
    }
    ev
}

/// The outcome of a call that did not run: failed at once with the error's
/// text.
pub fn error_outcome(error: &ToolCallError) -> (o: ToolOutcome)
    ensures
        o matches ToolOutcome::Failed { error: text, duration_ms } && text@ == spec_tool_error_text(*error)
            && duration_ms == 0,
{
    ToolOutcome::Failed { error: error.describe(), duration_ms: 0 }
}

/// The results a round of traced calls hands back to the model, one per
/// call in call order: the processed output of a call that completed, and
/// `Tool execution failed: <error>` for one that failed.
pub fn traced_results(calls: &Vec<ToolCall>, outcomes: &Vec<ToolOutcome>) -> (r: Vec<ToolExecutionResult>)
    requires
        outcomes@.len() == calls@.len(),
    ensures
        r@.len() == calls@.len(),
        forall|i: int|
            0 <= i < calls@.len() ==> (#[trigger] r@[i]).tool_call_id@ == calls@[i].id@ && match outcomes@[i] {
                ToolOutcome::Completed { content, metadata, .. } => r@[i].content@ == content@
                    && r@[i].metadata@ == metadata@,
                ToolOutcome::Failed { error, .. } => r@[i].content@ == failure_text(error@)
                    && r@[i].metadata@ == (MetadataModel {
                    original_chars: failure_text(error@).len() as usize,
                    injected_chars: failure_text(error@).len() as usize,
                    truncated: false,
                    artifact_path: None,
                }),
            },
{
    let mut r: Vec<ToolExecutionResult> = Vec::new();
    let mut i: usize = 0;
    while i < calls.len()
        invariant
            i <= calls@.len(),
            outcomes@.len() == calls@.len(),
            r@.len() == i,
            forall|k: int|
                0 <= k < i ==> (#[trigger] r@[k]).tool_call_id@ == calls@[k].id@ && match outcomes@[k] {
                    ToolOutcome::Completed { content, metadata, .. } => r@[k].content@ == content@
                        && r@[k].metadata@ == metadata@,
                    ToolOutcome::Failed { error, .. } => r@[k].content@ == failure_text(error@)
                        && r@[k].metadata@ == (MetadataModel {
                        original_chars: failure_text(error@).len() as usize,
                        injected_chars: failure_text(error@).len() as usize,
                        truncated: false,
                        artifact_path: None,
                    }),
                },
        decreases calls.len() - i,
    {
        let result = match &outcomes[i] {
            ToolOutcome::Completed { content, metadata, .. } => ToolExecutionResult {
                tool_call_id: calls[i].id.clone(),
                content: content.clone(),
                metadata: metadata.clone_metadata(),
            },
            ToolOutcome::Failed { error, .. } => failure_result(calls[i].id.as_str(), error.as_str()),
        };
        r.push(result);
        i = i + 1;
    }
    r
}

/// The first answer among the providers' in the order they were asked.
pub open spec fn first_answer(answers: Seq<Option<String>>) -> Option<Seq<char>>
    decreases answers.len(),
{
    if answers.len() == 0 {
        None
    } else {
        match answers[0] {
            Some(t) => Some(t@),
            None => first_answer(answers.skip(1)),
        }
    }
}

/// The dispatch rule: the first provider that answers a call wins; a call
/// that no provider answers fails as an unknown tool.
pub fn dispatch(answers: &Vec<Option<String>>, name: &str) -> (r: Result<String, ToolCallError>)
    ensures
        match first_answer(answers@) {
            Some(t) => r matches Ok(s) && s@ == t,
            None => r matches Err(ToolCallError::UnknownTool { name: n }) && n@ == name@,
        },
{
    let mut i: usize = 0;
    assert(answers@.skip(0) =~= answers@);
    while i < answers.len()
        invariant
            i <= answers@.len(),
            first_answer(answers@) == first_answer(answers@.skip(i as int)),
        decreases answers.len() - i,
    {
        assert(answers@.skip(i as int)[0] == answers@[i as int]);
        assert(answers@.skip(i as int).skip(1) =~= answers@.skip(i + 1));
        match &answers[i] {
            Some(t) => {
                return Ok(t.clone());
            },
            None => {},
        }
        i = i + 1;
    }
    assert(answers@.skip(i as int).len() == 0);
    Err(ToolCallError::UnknownTool { name: String::from_str(name) })
}

} // verus!
