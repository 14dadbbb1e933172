//! The context manager: one conversation's transcript, working memory and
//! context policy, behind the calls the agent makes.
use vstd::prelude::*;
use vstd::string::*;
use crate::api::{ChatMessage, ChoiceMessage, message_views};
use crate::context::budget::{ContextPolicy, TokenEstimator, max_int};
use crate::context::compiler::{
    CompileInput, CompiledContext, ContextCompiler, ProtocolError, ProtocolFault, ReportModel,
    compile_outcome, legacy_report, pack, pack_inputs, pack_report, spec_validate,
    summarize_prefix,
};
use crate::context::memory::{DeltaOutcome, MemoryDelta, WorkingMemory, delta_applies};
use crate::context::summary::{ContextSummarizer, fallback_turn_summary, spec_turn_summary};
use crate::context::transcript::{
    ConversationTranscript, ConversationTurn, TranscriptModel, TurnModel, spec_legacy_messages,
    turn_views, TurnSummary,
};
use crate::text::{append_str, str_chars, string_from_chars, string_views};
use crate::tool_result_processor::ToolResultMetadata;

verus! {

/// What a compaction pass did.
#[derive(Debug, Clone, Default, PartialEq, Eq)]
pub struct CompactionReport {
    pub compacted_turns: usize,
    pub fallback_summaries: usize,
    pub warnings: Vec<String>,
}

pub struct ContextManager {
    pub transcript: ConversationTranscript,
    pub working_memory: WorkingMemory,
    pub policy: ContextPolicy,
    pub estimator: TokenEstimator,
    pub model: String,
}

/// The number of turns among the first `upto` that have no summary.
pub open spec fn unsummarized_count(ts: Seq<TurnModel>, upto: int) -> int
    decreases upto,
{
    if upto <= 0 {
        0
    } else {
        unsummarized_count(ts, upto - 1) + if ts[upto - 1].summary is None {
            1int
        } else {
            0int
        }
    }
}

proof fn lemma_unsummarized_bound(ts: Seq<TurnModel>, upto: int)
    requires
        0 <= upto,
    ensures
        0 <= unsummarized_count(ts, upto) <= upto,
    decreases upto,
{
    if upto > 0 {
        lemma_unsummarized_bound(ts, upto - 1);
    }
}

/// The turns that a compaction pass leaves: all but the most recent
/// `max(recent_turns, 1)`.
pub open spec fn compact_until(turns: int, recent_turns: int) -> int {
    let keep = max_int(recent_turns, 1);
    if turns >= keep {
        turns - keep
    } else {
        0
    }
}

impl ContextManager {
    pub fn new(system_prompt: String, model: String, policy: ContextPolicy, now_ms: i64) -> (m: Self)
        ensures
            m.working_memory.updated_at_ms == now_ms,
            m.transcript@.system_prompt == system_prompt@,
            m.transcript@.turns.len() == 0,
            m.working_memory.task_goal is None,
            m.working_memory.durable_facts@.len() == 0,
            m.working_memory.decisions@.len() == 0,
            m.working_memory.open_questions@.len() == 0,
            m.working_memory.artifact_refs@.len() == 0,
            m.policy == policy,
            m.model == model,
    {
        ContextManager {
            transcript: ConversationTranscript::new(system_prompt),
            working_memory: WorkingMemory::new(now_ms),
            policy,
            estimator: TokenEstimator,
            model,
        }
    }

    pub fn record_user(&mut self, content: String) -> (id: String)
        ensures
            final(self).working_memory == old(self).working_memory,
            final(self).policy == old(self).policy,
            final(self).model == old(self).model,
            final(self).transcript@.system_prompt == old(self).transcript@.system_prompt,
            final(self).transcript@.turns.drop_last() == old(self).transcript@.turns,
            crate::context::transcript::is_new_turn(final(self).transcript@.turns.last(), content@),
            final(self).transcript@.turns.last().user.id == id@,
    {
        self.transcript.record_user(content)
    }

    pub fn record_assistant(&mut self, message: ChoiceMessage) -> (id: String)
        ensures
            final(self).working_memory == old(self).working_memory,
            final(self).policy == old(self).policy,
            final(self).model == old(self).model,
            final(self).transcript@.system_prompt == old(self).transcript@.system_prompt,
            crate::context::transcript::continues_current_turn(
                old(self).transcript@.turns,
                final(self).transcript@.turns,
            ),
    {
        self.transcript.record_assistant(message)
    }

    pub fn record_tool_result(
        &mut self,
        tool_call_id: String,
        content: String,
        metadata: ToolResultMetadata,
    ) -> (id: String)
        ensures
            final(self).working_memory == old(self).working_memory,
            final(self).policy == old(self).policy,
            final(self).model == old(self).model,
            final(self).transcript@.system_prompt == old(self).transcript@.system_prompt,
            crate::context::transcript::continues_current_turn(
                old(self).transcript@.turns,
                final(self).transcript@.turns,
            ),
    {
        self.transcript.record_tool_result(tool_call_id, content, metadata)
    }

    pub fn apply_memory_delta(&mut self, delta: MemoryDelta, now_ms: i64) -> (o: DeltaOutcome)
        ensures
            delta_applies(old(self).working_memory, final(self).working_memory, delta, o),
            o == DeltaOutcome::NotFound ==> final(self).working_memory.updated_at_ms
                == old(self).working_memory.updated_at_ms,
            o != DeltaOutcome::NotFound ==> final(self).working_memory.updated_at_ms == now_ms,
            final(self).transcript == old(self).transcript,
            final(self).policy == old(self).policy,
            final(self).model == old(self).model,
    {
        self.working_memory.apply_delta(&delta, now_ms)
    }

    /// Compiles the next request under the manager's policy and model.
    pub fn compile_request(&mut self, input: CompileInput) -> (r: Result<CompiledContext, ProtocolError>)
        ensures
            final(self).working_memory == old(self).working_memory,
            final(self).policy == old(self).policy,
            final(self).model == old(self).model,
            final(self).transcript@.system_prompt == old(self).transcript@.system_prompt,
            ({
                let inp = pack_inputs(
                    old(self).transcript,
                    old(self).working_memory,
                    old(self).model@,
                    old(self).policy,
                );
                if !old(self).policy.enabled {
                    let ms = spec_legacy_messages(old(self).transcript@);
                    &&& final(self).transcript@ == old(self).transcript@
                    &&& match r {
                        Ok(c) => spec_validate(ms) is Ok && message_views(c.messages@) == ms
                            && c.report@ == legacy_report(inp, ms),
                        Err(e) => spec_validate(ms) == Err::<(), ProtocolFault>(e@),
                    }
                } else {
                    let o = compile_outcome(inp);
                    let ms = pack(inp, o.start, o.include_memory, o.include_summary).messages;
                    &&& final(self).transcript@.turns == summarize_prefix(
                        old(self).transcript@.turns,
                        o.start,
                        old(self).policy.max_tool_exchange_tokens as int,
                    )
                    &&& match r {
                        Ok(c) => spec_validate(ms) is Ok && message_views(c.messages@) == ms
                            && c.report@ == (ReportModel {
                            warnings: o.warnings,
                            ..pack_report(inp, o.start, o.include_memory, o.include_summary)
                        }),
                        Err(e) => spec_validate(ms) == Err::<(), ProtocolFault>(e@),
                    }
                }
            }),
    {
        let compiler = ContextCompiler::new(self.policy.copy_policy(), self.estimator);
        compiler.compile(&mut self.transcript, &self.working_memory, self.model.as_str(), input)
    }

    /// The summary a turn gets from the summariser's result: the summary it
    /// gave, or, when it failed, the fallback summary under the exchange
    /// budget with the warning `summarizer failed for turn <id>: <error>`.
    pub fn summary_outcome(
        turn: &ConversationTurn,
        result: Result<TurnSummary, String>,
        max_tool_exchange_tokens: usize,
        estimator: &TokenEstimator,
    ) -> (r: (TurnSummary, Option<String>))
        ensures
            match result {
                Ok(s) => r.0 == s && r.1 is None,
                Err(e) => r.1 matches Some(w) && w@ == "summarizer failed for turn "@ + turn@.id + ": "@ + e@
                    && r.0.content@ == spec_turn_summary(turn@, max_tool_exchange_tokens as int),
            },
    {
        match result {
            Ok(summary) => (summary, None),
            Err(error) => {
                let fallback = fallback_turn_summary(turn, max_tool_exchange_tokens, estimator);
                let mut w = str_chars("summarizer failed for turn ");
                append_str(&mut w, turn.id.as_str());
                append_str(&mut w, ": ");
                append_str(&mut w, error.as_str());
                proof {
                    reveal_strlit("summarizer failed for turn ");
                    reveal_strlit(": ");
                }
                (fallback, Some(string_from_chars(w.as_slice())))
            },
        }
    }

    /// Gives every turn before the most recent `recent_turns` that has no
    /// summary one: the summariser's, or the fallback summary when the
    /// summariser fails, with a warning.  Turns that had a summary are left
    /// alone.
    pub fn maybe_compact<S: ContextSummarizer>(&mut self, summarizer: &S) -> (r: Result<
        CompactionReport,
        String,
    >)
        ensures
            final(self).working_memory == old(self).working_memory,
            final(self).policy == old(self).policy,
            final(self).model == old(self).model,
            final(self).transcript@.system_prompt == old(self).transcript@.system_prompt,
            ({
                let ts = old(self).transcript@.turns;
                let after = final(self).transcript@.turns;
                let upto = compact_until(ts.len() as int, old(self).policy.recent_turns as int);
                &&& after.len() == ts.len()
                &&& forall|k: int|
                    0 <= k < ts.len() ==> (if k < upto && ts[k].summary is None {
                        &&& (#[trigger] after[k]).summary is Some
                        &&& after[k] == TurnModel { summary: after[k].summary, ..ts[k] }
                    } else {
                        after[k] == ts[k]
                    })
                &&& r matches Ok(rep) && rep.compacted_turns == unsummarized_count(ts, upto)
                    && rep.fallback_summaries <= rep.compacted_turns
                    && rep.warnings@.len() == rep.fallback_summaries
            }),
    {
        let mut report = CompactionReport {
            compacted_turns: 0,
            fallback_summaries: 0,
            warnings: Vec::new(),
        };
        let keep = if self.policy.recent_turns >= 1 {
            self.policy.recent_turns
        } else {
            1
        };
        let until = self.transcript.turns.len().saturating_sub(keep);
        let ghost ts = self.transcript@.turns;
        let mut k: usize = 0;
        while k < until
            invariant
                k <= until <= ts.len(),
                until == compact_until(ts.len() as int, self.policy.recent_turns as int),
                ts == old(self).transcript@.turns,
                self.working_memory == old(self).working_memory,
                self.policy == old(self).policy,
                self.model == old(self).model,
                self.transcript@.system_prompt == old(self).transcript@.system_prompt,
                self.transcript@.turns.len() == ts.len(),
                self.transcript.turns@.len() == ts.len(),
                forall|j: int|
                    0 <= j < ts.len() ==> (if j < k && ts[j].summary is None {
                        &&& (#[trigger] self.transcript@.turns[j]).summary is Some
                        &&& self.transcript@.turns[j] == TurnModel {
                            summary: self.transcript@.turns[j].summary,
                            ..ts[j]
                        }
                    } else {
                        self.transcript@.turns[j] == ts[j]
                    }),
                report.compacted_turns == unsummarized_count(ts, k as int),
                report.fallback_summaries <= report.compacted_turns,
                report.warnings@.len() == report.fallback_summaries,
            decreases until - k,
        {
            proof {
                lemma_unsummarized_bound(ts, k as int);
                assert(self.transcript@.turns[k as int] == ts[k as int]);
                assert(unsummarized_count(ts, k + 1) == unsummarized_count(ts, k as int) + if ts[k as int].summary is None {
                    1int
                } else {
                    0int
                });
            }
            let ghost before = self.transcript.turns@;
            let ghost before_views = self.transcript@.turns;
            let has_summary = match &self.transcript.turns[k].summary {
                Some(_) => true,
                None => false,
            };
            if !has_summary {
                let mut turn = self.transcript.turns.remove(k);
                let ghost t0 = turn@;
                let result = summarizer.summarize_turn(&turn);
                let (summary, warning) = ContextManager::summary_outcome(
                    &turn,
                    result,
                    self.policy.max_tool_exchange_tokens,
                    &self.estimator,
                );
                match warning {
                    Some(w) => {
                        report.warnings.push(w);
                        report.fallback_summaries = report.fallback_summaries + 1;
                    },
                    None => {},
                }
                turn.summary = Some(summary);
                report.compacted_turns = report.compacted_turns + 1;
                let ghost t1 = turn@;
                self.transcript.turns.insert(k, turn);
                proof {
                    assert(turn_views(self.transcript.turns@) =~= turn_views(before).update(
                        k as int,
                        t1,
                    ));
                    assert(t0 == ts[k as int]);
                    assert(t1 == TurnModel { summary: t1.summary, ..t0 });
                    assert(t1.summary is Some);
                }
            }
            proof {
                assert forall|j: int|
                    0 <= j < ts.len() implies (if j < k + 1 && ts[j].summary is None {
                        &&& (#[trigger] self.transcript@.turns[j]).summary is Some
                        &&& self.transcript@.turns[j] == TurnModel {
                            summary: self.transcript@.turns[j].summary,
                            ..ts[j]
                        }
                    } else {
                        self.transcript@.turns[j] == ts[j]
                    }) by {
                    if j != k {
                        assert(self.transcript@.turns[j] == before_views[j]);
                    }
                }
            }
            k = k + 1;
        }
        Ok(report)
    }

    /// The whole transcript as messages, reasoning kept.
    pub fn audit_messages(&self) -> (r: Vec<ChatMessage>)
        ensures
            message_views(r@) == spec_legacy_messages(self.transcript@),
    {
        self.transcript.to_legacy_messages()
    }
}

} // verus!
