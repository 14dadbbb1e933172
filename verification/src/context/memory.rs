//! Working memory: the goal, facts, decisions, open questions and artifacts
//! of the ongoing task, kept apart from the transcript and injected into
//! each request.
use vstd::prelude::*;
use vstd::string::*;
use crate::api::{ChatMessage, MessageModel, text_message};
use crate::context::artifact_ref::{ContextArtifactRef, spec_render_artifact};
use crate::context::budget::{TokenEstimator, sat, spec_truncate_to_tokens};
use crate::text::{
    append_chars, append_str, chars_contains, contains_sub, join, join_vecs, str_chars, str_trim,
    string_from_chars, trim, trim_vec, views,
};

verus! {

/// The Unicode lowercase mapping of a text (`str::to_lowercase`).
pub uninterp spec fn unicode_lowercase(s: Seq<char>) -> Seq<char>;

/// `str::to_lowercase`: maps each character to its Unicode lowercase form.
/// The result depends on the text alone.
#[verifier::external_body]
fn to_lowercase(s: &str) -> (r: String)
    ensures
        r@ == unicode_lowercase(s@),
{
    s.to_lowercase()
}

/// One remembered line, with the time (ms since the epoch) it was added.
#[derive(Debug, Clone)]
pub struct MemoryItem {
    pub content: String,
    pub created_at_ms: i64,
}

impl MemoryItem {
    /// A line added at `now_ms`.
    pub fn new(content: String, now_ms: i64) -> (m: Self)
        ensures
            m.content == content,
            m.created_at_ms == now_ms,
    {
        MemoryItem { content, created_at_ms: now_ms }
    }
}

pub open spec fn item_texts(v: Seq<MemoryItem>) -> Seq<Seq<char>> {
    v.map_values(|m: MemoryItem| m.content@)
}

#[derive(Debug, Clone, Copy, PartialEq, Eq, Structural)]
pub enum MemoryScope {
    All,
    Facts,
    Decisions,
    OpenQuestions,
}

#[derive(Debug, Clone, PartialEq, Eq)]
pub enum MemoryDelta {
    SetGoal { goal: String },
    AddFact { content: String },
    AddDecision { content: String },
    AddQuestion { content: String },
    ResolveQuestion { needle: String },
    RemoveFact { needle: String },
    Clear { scope: MemoryScope },
}

#[derive(Debug, Clone, Copy, PartialEq, Eq, Structural)]
pub enum DeltaOutcome {
    Applied,
    NotFound,
    Cleared(usize),
}

#[derive(Debug, Clone)]
pub struct WorkingMemory {
    pub task_goal: Option<String>,
    pub durable_facts: Vec<MemoryItem>,
    pub decisions: Vec<MemoryItem>,
    pub open_questions: Vec<MemoryItem>,
    pub artifact_refs: Vec<ContextArtifactRef>,
    pub updated_at_ms: i64,
}

impl WorkingMemory {
    /// An empty memory, last updated at `now_ms`.
    pub fn new(now_ms: i64) -> (m: Self)
        ensures
            m.task_goal is None,
            m.durable_facts@.len() == 0,
            m.decisions@.len() == 0,
            m.open_questions@.len() == 0,
            m.artifact_refs@.len() == 0,
            m.updated_at_ms == now_ms,
    {
        WorkingMemory {
            task_goal: None,
            durable_facts: Vec::new(),
            decisions: Vec::new(),
            open_questions: Vec::new(),
            artifact_refs: Vec::new(),
            updated_at_ms: now_ms,
        }
    }
}

pub open spec fn goal_shown(goal: Option<String>) -> bool {
    goal matches Some(g) && trim(g@).len() > 0
}

pub open spec fn spec_memory_is_empty(m: WorkingMemory) -> bool {
    &&& !goal_shown(m.task_goal)
    &&& m.durable_facts@.len() == 0
    &&& m.decisions@.len() == 0
    &&& m.open_questions@.len() == 0
    &&& m.artifact_refs@.len() == 0
}

/// A titled list section, absent when there are no items.
pub open spec fn items_section(title: Seq<char>, items: Seq<Seq<char>>) -> Seq<Seq<char>> {
    if items.len() == 0 {
        Seq::empty()
    } else {
        seq![title + ":\n"@ + join(items.map_values(|t: Seq<char>| "- "@ + t), "\n"@)]
    }
}

pub open spec fn memory_sections(m: WorkingMemory) -> Seq<Seq<char>> {
    (if goal_shown(m.task_goal) {
        seq!["Task goal:\n"@ + m.task_goal->0@]
    } else {
        Seq::empty()
    }) + items_section("Durable facts"@, item_texts(m.durable_facts@)) + items_section(
        "Decisions"@,
        item_texts(m.decisions@),
    ) + items_section("Open questions"@, item_texts(m.open_questions@)) + if m.artifact_refs@.len()
        == 0 {
        Seq::<Seq<char>>::empty()
    } else {
        seq![
            "Artifacts:\n"@ + join(
                m.artifact_refs@.map_values(|a: ContextArtifactRef| spec_render_artifact(a)),
                "\n"@,
            ),
        ]
    }
}

pub open spec fn memory_preamble() -> Seq<char> {
    "Working memory for the ongoing task. Treat this as compressed context, not as a new user request.\n\n"@
}

/// The memory message: the preamble and the sections, cut to `max_tokens`.
pub open spec fn spec_memory_message(m: WorkingMemory, max_tokens: int) -> Option<MessageModel> {
    if spec_memory_is_empty(m) {
        None
    } else {
        Some(
            text_message(
                "user"@,
                spec_truncate_to_tokens(
                    memory_preamble() + join(memory_sections(m), "\n\n"@),
                    max_tokens,
                ),
            ),
        )
    }
}

/// The index of the first item whose lowercase text contains `needle`.
pub open spec fn first_match(items: Seq<Seq<char>>, needle: Seq<char>) -> Option<int>
    decreases items.len(),
{
    if items.len() == 0 {
        None
    } else {
        match first_match(items.drop_last(), needle) {
            Some(k) => Some(k),
            None => if contains_sub(unicode_lowercase(items.last()), needle) {
                Some(items.len() - 1)
            } else {
                None
            },
        }
    }
}

proof fn lemma_first_match_prefix(items: Seq<Seq<char>>, needle: Seq<char>, i: int)
    requires
        0 <= i < items.len(),
        forall|k: int| 0 <= k < i ==> !contains_sub(unicode_lowercase(#[trigger] items[k]), needle),
    ensures
        first_match(items.take(i + 1), needle) == if contains_sub(
            unicode_lowercase(items[i]),
            needle,
        ) {
            Some(i)
        } else {
            None::<int>
        },
    decreases i,
{
    let t = items.take(i + 1);
    assert(t.drop_last() =~= items.take(i));
    if i > 0 {
        lemma_first_match_prefix(items, needle, i - 1);
        assert(items.take(i) =~= items.take(i - 1 + 1));
    } else {
        assert(items.take(0) =~= Seq::<Seq<char>>::empty());
    }
}

/// What removing the first match of `needle` does: the trimmed needle must
/// not be empty, and it is compared with each item in lower case.
pub open spec fn spec_remove_first_match(items: Seq<Seq<char>>, needle: Seq<char>) -> Option<int> {
    if trim(needle).len() == 0 {
        None
    } else {
        first_match(items, unicode_lowercase(trim(needle)))
    }
}

fn push_non_empty(items: &mut Vec<MemoryItem>, content: &str, now_ms: i64) -> (o: DeltaOutcome)
    ensures
        trim(content@).len() == 0 ==> o == DeltaOutcome::NotFound && final(items)@ == old(items)@,
        trim(content@).len() > 0 ==> o == DeltaOutcome::Applied && item_texts(final(items)@)
            == item_texts(old(items)@).push(trim(content@)),
{
    let trimmed = str_trim(content);
    if trimmed.as_str().is_empty() {
        DeltaOutcome::NotFound
    } else {
        let ghost before = items@;
        items.push(MemoryItem::new(trimmed, now_ms));
        assert(item_texts(items@) =~= item_texts(before).push(trim(content@)));
        DeltaOutcome::Applied
    }
}

fn remove_first_match(items: &mut Vec<MemoryItem>, needle: &str) -> (o: DeltaOutcome)
    ensures
        match spec_remove_first_match(item_texts(old(items)@), needle@) {
            None => o == DeltaOutcome::NotFound && final(items)@ == old(items)@,
            Some(k) => o == DeltaOutcome::Applied && final(items)@ == old(items)@.remove(k),
        },
{
    let trimmed = str_trim(needle);
    if trimmed.as_str().is_empty() {
        return DeltaOutcome::NotFound;
    }
    let lower = to_lowercase(trimmed.as_str());
    let lv = str_chars(lower.as_str());
    let ghost texts = item_texts(items@);
    let mut i: usize = 0;
    while i < items.len()
        invariant
            i <= items@.len(),
            texts == item_texts(items@),
            items@ == old(items)@,
            lv@ == unicode_lowercase(trim(needle@)),
            trim(needle@).len() > 0,
            forall|k: int| 0 <= k < i ==> !contains_sub(unicode_lowercase(#[trigger] texts[k]), lv@),
        decreases items.len() - i,
    {
        let item_lower = to_lowercase(items[i].content.as_str());
        let iv = str_chars(item_lower.as_str());
        proof {
            assert(texts[i as int] == items@[i as int].content@);
            lemma_first_match_prefix(texts, lv@, i as int);
        }
        if chars_contains(iv.as_slice(), lv.as_slice()) {
            proof {
                lemma_first_match_take(texts, lv@, i as int);
            }
            items.remove(i);
            return DeltaOutcome::Applied;
        }
        i = i + 1;
    }
    proof {
        lemma_first_match_none(texts, lv@);
    }
    DeltaOutcome::NotFound
}

pub proof fn lemma_first_match_range(items: Seq<Seq<char>>, needle: Seq<char>)
    ensures
        first_match(items, needle) matches Some(k) ==> 0 <= k < items.len(),
    decreases items.len(),
{
    if items.len() > 0 {
        lemma_first_match_range(items.drop_last(), needle);
    }
}

proof fn lemma_first_match_none(items: Seq<Seq<char>>, needle: Seq<char>)
    requires
        forall|k: int|
            0 <= k < items.len() ==> !contains_sub(unicode_lowercase(#[trigger] items[k]), needle),
    ensures
        first_match(items, needle) is None,
    decreases items.len(),
{
    if items.len() > 0 {
        let d = items.drop_last();
        assert forall|k: int| 0 <= k < d.len() implies !contains_sub(
            unicode_lowercase(#[trigger] d[k]),
            needle,
        ) by {
            assert(d[k] == items[k]);
        }
        lemma_first_match_none(d, needle);
        assert(!contains_sub(unicode_lowercase(items[items.len() - 1]), needle));
    }
}

proof fn lemma_first_match_take(items: Seq<Seq<char>>, needle: Seq<char>, i: int)
    requires
        0 <= i < items.len(),
        first_match(items.take(i + 1), needle) == Some(i),
    ensures
        first_match(items, needle) == Some(i),
    decreases items.len(),
{
    if items.len() == i + 1 {
        assert(items.take(i + 1) =~= items);
    } else {
        assert(items.drop_last().take(i + 1) =~= items.take(i + 1));
        lemma_first_match_take(items.drop_last(), needle, i);
    }
}

fn clear_vec(items: &mut Vec<MemoryItem>) -> (n: usize)
    ensures
        n == old(items)@.len(),
        final(items)@.len() == 0,
{
    let n = items.len();
    items.clear();
    n
}

/// The state after a delta, on the texts of the memory: goal and lists.
pub open spec fn delta_applies(
    before: WorkingMemory,
    after: WorkingMemory,
    delta: MemoryDelta,
    o: DeltaOutcome,
) -> bool {
    let facts = item_texts(before.durable_facts@);
    let decisions = item_texts(before.decisions@);
    let questions = item_texts(before.open_questions@);
    let same_lists = item_texts(after.durable_facts@) == facts && item_texts(after.decisions@)
        == decisions && item_texts(after.open_questions@) == questions;
    &&& after.artifact_refs@ == before.artifact_refs@
    &&& match delta {
        MemoryDelta::SetGoal { goal } => {
            &&& o == DeltaOutcome::Applied
            &&& same_lists
            &&& if trim(goal@).len() == 0 {
                after.task_goal is None
            } else {
                after.task_goal matches Some(g) && g@ == trim(goal@)
            }
        },
        MemoryDelta::AddFact { content } => {
            &&& after.task_goal == before.task_goal
            &&& item_texts(after.decisions@) == decisions
            &&& item_texts(after.open_questions@) == questions
            &&& if trim(content@).len() == 0 {
                o == DeltaOutcome::NotFound && item_texts(after.durable_facts@) == facts
            } else {
                o == DeltaOutcome::Applied && item_texts(after.durable_facts@) == facts.push(
                    trim(content@),
                )
            }
        },
        MemoryDelta::AddDecision { content } => {
            &&& after.task_goal == before.task_goal
            &&& item_texts(after.durable_facts@) == facts
            &&& item_texts(after.open_questions@) == questions
            &&& if trim(content@).len() == 0 {
                o == DeltaOutcome::NotFound && item_texts(after.decisions@) == decisions
            } else {
                o == DeltaOutcome::Applied && item_texts(after.decisions@) == decisions.push(
                    trim(content@),
                )
            }
        },
        MemoryDelta::AddQuestion { content } => {
            &&& after.task_goal == before.task_goal
            &&& item_texts(after.durable_facts@) == facts
            &&& item_texts(after.decisions@) == decisions
            &&& if trim(content@).len() == 0 {
                o == DeltaOutcome::NotFound && item_texts(after.open_questions@) == questions
            } else {
                o == DeltaOutcome::Applied && item_texts(after.open_questions@) == questions.push(
                    trim(content@),
                )
            }
        },
        MemoryDelta::ResolveQuestion { needle } => {
            &&& after.task_goal == before.task_goal
            &&& item_texts(after.durable_facts@) == facts
            &&& item_texts(after.decisions@) == decisions
            &&& match spec_remove_first_match(questions, needle@) {
                None => o == DeltaOutcome::NotFound && item_texts(after.open_questions@)
                    == questions,
                Some(k) => o == DeltaOutcome::Applied && item_texts(after.open_questions@)
                    == questions.remove(k),
            }
        },
        MemoryDelta::RemoveFact { needle } => {
            &&& after.task_goal == before.task_goal
            &&& item_texts(after.decisions@) == decisions
            &&& item_texts(after.open_questions@) == questions
            &&& match spec_remove_first_match(facts, needle@) {
                None => o == DeltaOutcome::NotFound && item_texts(after.durable_facts@) == facts,
                Some(k) => o == DeltaOutcome::Applied && item_texts(after.durable_facts@)
                    == facts.remove(k),
            }
        },
        MemoryDelta::Clear { scope } => match scope {
            MemoryScope::All => {
                &&& o == DeltaOutcome::Cleared(
                    sat(facts.len() + decisions.len() + questions.len() as int) as usize,
                )
                &&& after.task_goal is None
                &&& after.durable_facts@.len() == 0
                &&& after.decisions@.len() == 0
                &&& after.open_questions@.len() == 0
            },
            MemoryScope::Facts => {
                &&& o == DeltaOutcome::Cleared(facts.len() as usize)
                &&& after.task_goal == before.task_goal
                &&& after.durable_facts@.len() == 0
                &&& item_texts(after.decisions@) == decisions
                &&& item_texts(after.open_questions@) == questions
            },
            MemoryScope::Decisions => {
                &&& o == DeltaOutcome::Cleared(decisions.len() as usize)
                &&& after.task_goal == before.task_goal
                &&& item_texts(after.durable_facts@) == facts
                &&& after.decisions@.len() == 0
                &&& item_texts(after.open_questions@) == questions
            },
            MemoryScope::OpenQuestions => {
                &&& o == DeltaOutcome::Cleared(questions.len() as usize)
                &&& after.task_goal == before.task_goal
                &&& item_texts(after.durable_facts@) == facts
                &&& item_texts(after.decisions@) == decisions
                &&& after.open_questions@.len() == 0
            },
        },
    }
}

fn push_section(sections: &mut Vec<Vec<char>>, title: &str, items: &Vec<MemoryItem>)
    ensures
        views(final(sections)@) == views(old(sections)@) + items_section(
            title@,
            item_texts(items@),
        ),
{
    if items.len() == 0 {
        assert(views(sections@) =~= views(sections@) + Seq::<Seq<char>>::empty());
        return;
    }
    let ghost texts = item_texts(items@);
    let mut rendered: Vec<Vec<char>> = Vec::new();
    let mut i: usize = 0;
    while i < items.len()
        invariant
            i <= items@.len(),
            texts == item_texts(items@),
            rendered@.len() == i,
            forall|k: int| 0 <= k < i ==> #[trigger] rendered@[k]@ == "- "@ + texts[k],
        decreases items.len() - i,
    {
        let mut line = str_chars("- ");
        append_str(&mut line, items[i].content.as_str());
        rendered.push(line);
        i = i + 1;
    }
    assert(views(rendered@) =~= texts.map_values(|t: Seq<char>| "- "@ + t));
    let nl = str_chars("\n");
    let body = join_vecs(&rendered, nl.as_slice());
    let mut section = str_chars(title);
    append_str(&mut section, ":\n");
    append_chars(&mut section, body.as_slice());
    let ghost before = views(sections@);
    sections.push(section);
    assert(views(sections@) =~= before + items_section(title@, texts));
}

impl WorkingMemory {
    /// No goal worth showing and no items.
    pub fn is_empty(&self) -> (b: bool)
        ensures
            b == spec_memory_is_empty(*self),
    {
        let goal_blank = match &self.task_goal {
            Some(g) => {
                let t = str_trim(g.as_str());
                t.as_str().is_empty()
            },
            None => true,
        };
        goal_blank && self.durable_facts.len() == 0 && self.decisions.len() == 0
            && self.open_questions.len() == 0 && self.artifact_refs.len() == 0
    }

    /// The memory as a user message, or `None` when there is nothing to show.
    pub fn to_context_message(&self, estimator: &TokenEstimator, max_tokens: usize) -> (r: Option<
        ChatMessage,
    >)
        ensures
            match r {
                Some(m) => spec_memory_message(*self, max_tokens as int) == Some(m@),
                None => spec_memory_message(*self, max_tokens as int) is None,
            },
    {
        if self.is_empty() {
            return None;
        }
        let mut sections: Vec<Vec<char>> = Vec::new();
        match &self.task_goal {
            Some(goal) => {
                let t = str_trim(goal.as_str());
                if !t.as_str().is_empty() {
                    let mut s = str_chars("Task goal:\n");
                    append_str(&mut s, goal.as_str());
                    let ghost before = views(sections@);
                    sections.push(s);
                    assert(views(sections@) =~= before.push(s@));
                }
            },
            None => {},
        }
        let ghost after_goal = views(sections@);
        push_section(&mut sections, "Durable facts", &self.durable_facts);
        push_section(&mut sections, "Decisions", &self.decisions);
        push_section(&mut sections, "Open questions", &self.open_questions);
        let ghost after_lists = views(sections@);
        if self.artifact_refs.len() > 0 {
            let mut rendered: Vec<Vec<char>> = Vec::new();
            let mut i: usize = 0;
            while i < self.artifact_refs.len()
                invariant
                    i <= self.artifact_refs@.len(),
                    rendered@.len() == i,
                    forall|k: int|
                        0 <= k < i ==> #[trigger] rendered@[k]@ == spec_render_artifact(
                            self.artifact_refs@[k],
                        ),
                decreases self.artifact_refs.len() - i,
            {
                let line = self.artifact_refs[i].render();
                rendered.push(str_chars(line.as_str()));
                i = i + 1;
            }
            assert(views(rendered@) =~= self.artifact_refs@.map_values(
                |a: ContextArtifactRef| spec_render_artifact(a),
            ));
            let nl = str_chars("\n");
            let body = join_vecs(&rendered, nl.as_slice());
            let mut s = str_chars("Artifacts:\n");
            append_chars(&mut s, body.as_slice());
            let ghost before = views(sections@);
            sections.push(s);
            assert(views(sections@) =~= before.push(s@));
        }
        assert(views(sections@) =~= memory_sections(*self));
        let mut content = str_chars(
            "Working memory for the ongoing task. Treat this as compressed context, not as a new user request.\n\n",
        );
        let sep = str_chars("\n\n");
        let joined = join_vecs(&sections, sep.as_slice());
        append_chars(&mut content, joined.as_slice());
        let text = string_from_chars(content.as_slice());
        Some(ChatMessage::user(estimator.truncate_text_to_tokens(text.as_str(), max_tokens)))
    }

    fn clear_scope(&mut self, scope: MemoryScope) -> (n: usize)
        ensures
            final(self).artifact_refs == old(self).artifact_refs,
            delta_applies(
                *old(self),
                *final(self),
                MemoryDelta::Clear { scope },
                DeltaOutcome::Cleared(n),
            ),
    {
        match scope {
            MemoryScope::All => {
                let n = self.durable_facts.len().saturating_add(self.decisions.len()).saturating_add(
                    self.open_questions.len(),
                );
                self.durable_facts.clear();
                self.decisions.clear();
                self.open_questions.clear();
                self.task_goal = None;
                n
            },
            MemoryScope::Facts => clear_vec(&mut self.durable_facts),
            MemoryScope::Decisions => clear_vec(&mut self.decisions),
            MemoryScope::OpenQuestions => clear_vec(&mut self.open_questions),
        }
    }

    /// Applies one change and reports its outcome; the update time moves
    /// unless nothing was found.
    pub fn apply_delta(&mut self, delta: &MemoryDelta, now_ms: i64) -> (o: DeltaOutcome)
        ensures
            delta_applies(*old(self), *final(self), *delta, o),
            o == DeltaOutcome::NotFound ==> final(self).updated_at_ms == old(self).updated_at_ms,
            o != DeltaOutcome::NotFound ==> final(self).updated_at_ms == now_ms,
    {
        let outcome = match delta {
            MemoryDelta::SetGoal { goal } => {
                let g = str_trim(goal.as_str());
                self.task_goal = if g.as_str().is_empty() {
                    None
                } else {
                    Some(g)
                };
                DeltaOutcome::Applied
            },
            MemoryDelta::AddFact { content } => push_non_empty(&mut self.durable_facts, content.as_str(), now_ms),
            MemoryDelta::AddDecision { content } => push_non_empty(&mut self.decisions, content.as_str(), now_ms),
            MemoryDelta::AddQuestion { content } => push_non_empty(&mut self.open_questions, content.as_str(), now_ms),
            MemoryDelta::ResolveQuestion { needle } => {
                let o = remove_first_match(&mut self.open_questions, needle.as_str());
                proof {
                    match spec_remove_first_match(item_texts(old(self).open_questions@), needle@) {
                        Some(k) => {
                            lemma_first_match_range(
                                item_texts(old(self).open_questions@),
                                unicode_lowercase(trim(needle@)),
                            );
                            assert(self.open_questions@ == old(self).open_questions@.remove(k));
                            assert(item_texts(self.open_questions@) =~= item_texts(old(self).open_questions@).remove(k));
                        },
                        None => {},
                    }
                }
                o
            },
            MemoryDelta::RemoveFact { needle } => {
                let o = remove_first_match(&mut self.durable_facts, needle.as_str());
                proof {
                    match spec_remove_first_match(item_texts(old(self).durable_facts@), needle@) {
                        Some(k) => {
                            lemma_first_match_range(
                                item_texts(old(self).durable_facts@),
                                unicode_lowercase(trim(needle@)),
                            );
                            assert(self.durable_facts@ == old(self).durable_facts@.remove(k));
                            assert(item_texts(self.durable_facts@) =~= item_texts(old(self).durable_facts@).remove(k));
                        },
                        None => {},
                    }
                }
                o
            },
            MemoryDelta::Clear { scope } => DeltaOutcome::Cleared(self.clear_scope(*scope)),
        };
        match outcome {
            DeltaOutcome::NotFound => {},
            _ => {
                self.updated_at_ms = now_ms;
            },
        }
        outcome
    }
}

} // verus!
