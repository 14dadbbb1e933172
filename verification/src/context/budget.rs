//! Context budgets and token estimates.
//!
//! Token counts are estimated from characters and UTF-8 bytes, erring on
//! the high side for CJK text.  Ratios are kept in thousandths.
use vstd::prelude::*;
use vstd::string::*;
use vstd::utf8::encode_utf8;
use crate::api::{ChatMessage, MessageModel, ToolCall, ToolCallModel, message_views, tool_call_views};
use crate::text::{
    append_chars, append_str, ascii_lower, ascii_lower_vec, chars_contains_str, contains_sub, join,
    join_vecs, str_chars, str_eq, string_from_chars, take_chars, take_chars_vec, views,
};

verus! {

pub const DEFAULT_CONTEXT_ENABLED: bool = true;

pub const DEFAULT_TARGET_RATIO_PERMILLE: u32 = 600;

pub const DEFAULT_COMPACTION_TRIGGER_RATIO_PERMILLE: u32 = 400;

pub const DEFAULT_RESERVED_COMPLETION_TOKENS: usize = 8_192;

pub const DEFAULT_RECENT_TURNS: usize = 6;

pub const DEFAULT_MAX_TOOL_EXCHANGE_TOKENS: usize = 4_096;

pub const DEFAULT_MAX_MEMORY_TOKENS: usize = 12_000;

pub const DEFAULT_MAX_SUMMARY_TOKENS: usize = 8_000;

pub const DEFAULT_UNKNOWN_CONTEXT_WINDOW_TOKENS: usize = 128_000;

pub const DEEPSEEK_V4_CONTEXT_TOKENS: usize = 1_000_000;

pub const MESSAGE_OVERHEAD_TOKENS: usize = 4;

#[derive(Debug, Clone, Copy, PartialEq, Eq, Structural)]
pub enum ReasoningRetentionPolicy {
    Auto,
    Preserve,
    OmitWhenSupported,
}

pub open spec fn spec_retention_from_str(value: Seq<char>) -> ReasoningRetentionPolicy {
    if value == "preserve"@ {
        ReasoningRetentionPolicy::Preserve
    } else if value == "omit_when_supported"@ {
        ReasoningRetentionPolicy::OmitWhenSupported
    } else {
        ReasoningRetentionPolicy::Auto
    }
}

pub open spec fn spec_retention_str(p: ReasoningRetentionPolicy) -> Seq<char> {
    match p {
        ReasoningRetentionPolicy::Auto => "auto"@,
        ReasoningRetentionPolicy::Preserve => "preserve"@,
        ReasoningRetentionPolicy::OmitWhenSupported => "omit_when_supported"@,
    }
}

impl ReasoningRetentionPolicy {
    /// Parses a policy name; unknown names mean `Auto`.
    pub fn from_str(value: &str) -> (p: Self)
        ensures
            p == spec_retention_from_str(value@),
    {
        if str_eq(value, "preserve") {
            ReasoningRetentionPolicy::Preserve
        } else if str_eq(value, "omit_when_supported") {
            ReasoningRetentionPolicy::OmitWhenSupported
        } else {
            ReasoningRetentionPolicy::Auto
        }
    }

    pub fn as_str(self) -> (s: &'static str)
        ensures
            s@ == spec_retention_str(self),
    {
        match self {
            ReasoningRetentionPolicy::Auto => "auto",
            ReasoningRetentionPolicy::Preserve => "preserve",
            ReasoningRetentionPolicy::OmitWhenSupported => "omit_when_supported",
        }
    }
}

/// How the context of a request is assembled.  Ratios are in thousandths of
/// the model's context window.
#[derive(Debug, Clone)]
pub struct ContextPolicy {
    pub enabled: bool,
    pub target_ratio_permille: u32,
    pub compaction_trigger_ratio_permille: u32,
    pub reserved_completion_tokens: usize,
    pub recent_turns: usize,
    pub max_tool_exchange_tokens: usize,
    pub max_memory_tokens: usize,
    pub max_summary_tokens: usize,
    pub reasoning_policy: ReasoningRetentionPolicy,
}

impl Default for ContextPolicy {
    fn default() -> (p: Self)
        ensures
            p.enabled == DEFAULT_CONTEXT_ENABLED,
            p.target_ratio_permille == DEFAULT_TARGET_RATIO_PERMILLE,
            p.compaction_trigger_ratio_permille == DEFAULT_COMPACTION_TRIGGER_RATIO_PERMILLE,
            p.reserved_completion_tokens == DEFAULT_RESERVED_COMPLETION_TOKENS,
            p.recent_turns == DEFAULT_RECENT_TURNS,
            p.max_tool_exchange_tokens == DEFAULT_MAX_TOOL_EXCHANGE_TOKENS,
            p.max_memory_tokens == DEFAULT_MAX_MEMORY_TOKENS,
            p.max_summary_tokens == DEFAULT_MAX_SUMMARY_TOKENS,
            p.reasoning_policy == ReasoningRetentionPolicy::Auto,
    {
        ContextPolicy {
            enabled: DEFAULT_CONTEXT_ENABLED,
            target_ratio_permille: DEFAULT_TARGET_RATIO_PERMILLE,
            compaction_trigger_ratio_permille: DEFAULT_COMPACTION_TRIGGER_RATIO_PERMILLE,
            reserved_completion_tokens: DEFAULT_RESERVED_COMPLETION_TOKENS,
            recent_turns: DEFAULT_RECENT_TURNS,
            max_tool_exchange_tokens: DEFAULT_MAX_TOOL_EXCHANGE_TOKENS,
            max_memory_tokens: DEFAULT_MAX_MEMORY_TOKENS,
            max_summary_tokens: DEFAULT_MAX_SUMMARY_TOKENS,
            reasoning_policy: ReasoningRetentionPolicy::Auto,
        }
    }
}

impl ContextPolicy {
    pub fn copy_policy(&self) -> (p: Self)
        ensures
            p == *self,
    {
        ContextPolicy {
            enabled: self.enabled,
            target_ratio_permille: self.target_ratio_permille,
            compaction_trigger_ratio_permille: self.compaction_trigger_ratio_permille,
            reserved_completion_tokens: self.reserved_completion_tokens,
            recent_turns: self.recent_turns,
            max_tool_exchange_tokens: self.max_tool_exchange_tokens,
            max_memory_tokens: self.max_memory_tokens,
            max_summary_tokens: self.max_summary_tokens,
            reasoning_policy: self.reasoning_policy,
        }
    }
}

/// `x`, capped at `usize::MAX`.
pub open spec fn sat(x: int) -> int {
    if x > usize::MAX {
        usize::MAX as int
    } else {
        x
    }
}

pub open spec fn max_int(a: int, b: int) -> int {
    if a >= b {
        a
    } else {
        b
    }
}

pub open spec fn ceil_div(a: int, b: int) -> int {
    if a % b == 0 {
        a / b
    } else {
        a / b + 1
    }
}

pub open spec fn spec_model_window(model: Seq<char>) -> Option<usize> {
    if model == "deepseek-v4-flash"@ || model == "deepseek-v4-pro"@ {
        Some(DEEPSEEK_V4_CONTEXT_TOKENS)
    } else {
        None
    }
}

/// The context window of the models whose size is known.
pub fn model_context_window_tokens(model: &str) -> (r: Option<usize>)
    ensures
        r == spec_model_window(model@),
{
    if str_eq(model, "deepseek-v4-flash") || str_eq(model, "deepseek-v4-pro") {
        Some(DEEPSEEK_V4_CONTEXT_TOKENS)
    } else {
        None
    }
}

pub open spec fn spec_preserves_reasoning(model: Seq<char>, policy: ReasoningRetentionPolicy) -> bool {
    contains_sub(ascii_lower(model), "deepseek"@) || policy == ReasoningRetentionPolicy::Preserve
}

/// DeepSeek models always get their reasoning back; other models only when
/// the policy asks for it.
pub fn preserves_reasoning_content(model: &str, policy: &ContextPolicy) -> (r: bool)
    ensures
        r == spec_preserves_reasoning(model@, policy.reasoning_policy),
{
    let m = str_chars(model);
    let lower = ascii_lower_vec(m.as_slice());
    if chars_contains_str(lower.as_slice(), "deepseek") {
        return true;
    }
    policy.reasoning_policy == ReasoningRetentionPolicy::Preserve
}

/// The token budget of one request.
#[derive(Debug, Clone)]
pub struct ContextBudget {
    pub context_window_tokens: usize,
    pub target_prompt_tokens: usize,
    pub reserved_completion_tokens: usize,
    pub preserve_reasoning_content: bool,
    pub reasoning_policy_label: String,
}

pub open spec fn spec_window_or_default(model: Seq<char>) -> usize {
    match spec_model_window(model) {
        Some(w) => w,
        None => DEFAULT_UNKNOWN_CONTEXT_WINDOW_TOKENS,
    }
}

/// The prompt target: the ratio of the window less the reserved completion
/// tokens, at least one token.
pub open spec fn spec_target_tokens(window: int, ratio_permille: int, reserved: int) -> int {
    let ratio_target = sat(window * ratio_permille / 1000);
    max_int(if ratio_target >= reserved {
        ratio_target - reserved
    } else {
        0
    }, 1)
}

impl ContextBudget {
    pub fn for_model(model: &str, policy: &ContextPolicy) -> (b: Self)
        ensures
            b.context_window_tokens == spec_window_or_default(model@),
            b.target_prompt_tokens == spec_target_tokens(
                spec_window_or_default(model@) as int,
                policy.target_ratio_permille as int,
                policy.reserved_completion_tokens as int,
            ),
            b.reserved_completion_tokens == policy.reserved_completion_tokens,
            b.preserve_reasoning_content == spec_preserves_reasoning(
                model@,
                policy.reasoning_policy,
            ),
            b.reasoning_policy_label@ == if b.preserve_reasoning_content {
                "preserve"@
            } else {
                "omit_when_supported"@
            },
    {
        let context_window_tokens = match model_context_window_tokens(model) {
            Some(w) => w,
            None => DEFAULT_UNKNOWN_CONTEXT_WINDOW_TOKENS,
        };
        let product: u128 = (context_window_tokens as u128) * (policy.target_ratio_permille as u128)
            / 1000;
        let ratio_target: usize = if product > usize::MAX as u128 {
            usize::MAX
        } else {
            product as usize
        };
        let less = ratio_target.saturating_sub(policy.reserved_completion_tokens);
        let target_prompt_tokens = if less >= 1 {
            less
        } else {
            1
        };
        let preserve_reasoning_content = preserves_reasoning_content(model, policy);
        let reasoning_policy_label = if preserve_reasoning_content {
            String::from_str("preserve")
        } else {
            String::from_str("omit_when_supported")
        };
        ContextBudget {
            context_window_tokens,
            target_prompt_tokens,
            reserved_completion_tokens: policy.reserved_completion_tokens,
            preserve_reasoning_content,
            reasoning_policy_label,
        }
    }
}

// ---------------------------------------------------------------------------
// Token estimates.
// ---------------------------------------------------------------------------

/// CJK ideographs, kana and hangul syllables.
pub open spec fn is_cjk(c: char) -> bool {
    let u = c as u32;
    ||| 0x4E00 <= u <= 0x9FFF
    ||| 0x3400 <= u <= 0x4DBF
    ||| 0x20000 <= u <= 0x2A6DF
    ||| 0x2A700 <= u <= 0x2B73F
    ||| 0x2B740 <= u <= 0x2B81F
    ||| 0x2B820 <= u <= 0x2CEAF
    ||| 0xF900 <= u <= 0xFAFF
    ||| 0x3040 <= u <= 0x30FF
    ||| 0xAC00 <= u <= 0xD7AF
}

pub fn is_cjk_exec(c: char) -> (b: bool)
    ensures
        b == is_cjk(c),
{
    let u = c as u32;
    (0x4E00 <= u && u <= 0x9FFF) || (0x3400 <= u && u <= 0x4DBF) || (0x20000 <= u && u <= 0x2A6DF)
        || (0x2A700 <= u && u <= 0x2B73F) || (0x2B740 <= u && u <= 0x2B81F) || (0x2B820 <= u && u
        <= 0x2CEAF) || (0xF900 <= u && u <= 0xFAFF) || (0x3040 <= u && u <= 0x30FF) || (0xAC00
        <= u && u <= 0xD7AF)
}

pub open spec fn cjk_count(s: Seq<char>) -> nat
    decreases s.len(),
{
    if s.len() == 0 {
        0
    } else {
        cjk_count(s.drop_last()) + if is_cjk(s.last()) {
            1nat
        } else {
            0nat
        }
    }
}

proof fn lemma_cjk_count_bound(s: Seq<char>)
    ensures
        cjk_count(s) <= s.len(),
    decreases s.len(),
{
    if s.len() > 0 {
        lemma_cjk_count_bound(s.drop_last());
    }
}

/// The length of the UTF-8 encoding of `s` (`str::len`).
pub open spec fn byte_len(s: Seq<char>) -> usize {
    encode_utf8(s).len() as usize
}

/// The estimate of a text: the largest of a third of its characters, a
/// quarter of its bytes, and two per CJK character plus a quarter of the
/// others.
pub open spec fn spec_estimate_text(s: Seq<char>) -> int {
    if s.len() == 0 {
        0
    } else {
        let chars = s.len() as int;
        let cjk = cjk_count(s) as int;
        let mixed = sat(sat(2 * cjk) + ceil_div(chars - cjk, 4));
        max_int(max_int(ceil_div(chars, 3), ceil_div(byte_len(s) as int, 4)), mixed)
    }
}

pub open spec fn opt_estimate(o: Option<Seq<char>>) -> int {
    match o {
        Some(s) => spec_estimate_text(s),
        None => 0,
    }
}

/// A lower-case hexadecimal digit.
pub open spec fn hex_lower(n: nat) -> char {
    if n < 10 {
        (('0' as nat) + n) as char
    } else {
        (('a' as nat) + n - 10) as char
    }
}

/// One character inside a JSON string literal as `serde_json` writes it:
/// `"` and `\` after a backslash, the five short escapes, other control
/// characters as `\u00XX`, anything else as it is.
pub open spec fn json_escape_char(c: char) -> Seq<char> {
    if c == '"' {
        seq!['\\', '"']
    } else if c == '\\' {
        seq!['\\', '\\']
    } else if c == '\u{8}' {
        seq!['\\', 'b']
    } else if c == '\t' {
        seq!['\\', 't']
    } else if c == '\n' {
        seq!['\\', 'n']
    } else if c == '\u{c}' {
        seq!['\\', 'f']
    } else if c == '\r' {
        seq!['\\', 'r']
    } else if (c as nat) < 0x20 {
        seq!['\\', 'u', '0', '0', hex_lower((c as nat) / 16), hex_lower((c as nat) % 16)]
    } else {
        seq![c]
    }
}

pub open spec fn json_escaped(s: Seq<char>) -> Seq<char>
    decreases s.len(),
{
    if s.len() == 0 {
        Seq::empty()
    } else {
        json_escaped(s.drop_last()) + json_escape_char(s.last())
    }
}

/// The JSON text of a string (`serde_json::to_string` of a `str`): the
/// string between quotes, each character escaped as above.
pub open spec fn json_string(s: Seq<char>) -> Seq<char> {
    seq!['"'] + json_escaped(s) + seq!['"']
}

/// The compact JSON of one tool call, fields in declaration order.
pub open spec fn tool_call_json(c: ToolCallModel) -> Seq<char> {
    "{\"id\":"@ + json_string(c.id) + ",\"type\":"@ + json_string(c.kind)
        + ",\"function\":{\"name\":"@ + json_string(c.name) + ",\"arguments\":"@ + json_string(
        c.arguments,
    ) + "}}"@
}

/// The compact JSON array of some tool calls.
pub open spec fn tool_calls_json(calls: Seq<ToolCallModel>) -> Seq<char> {
    "["@ + join(calls.map_values(|c: ToolCallModel| tool_call_json(c)), ","@) + "]"@
}

pub open spec fn opt_calls_estimate(o: Option<Seq<ToolCallModel>>) -> int {
    match o {
        Some(calls) => spec_estimate_text(tool_calls_json(calls)),
        None => 0,
    }
}

/// The estimate of a message: a fixed overhead plus the estimates of its
/// role, content, tool call id, reasoning and serialised tool calls, each
/// sum capped at `usize::MAX`.
pub open spec fn spec_estimate_message(m: MessageModel) -> int {
    let t1 = sat(MESSAGE_OVERHEAD_TOKENS + spec_estimate_text(m.role));
    let t2 = sat(t1 + opt_estimate(m.content));
    let t3 = sat(t2 + opt_estimate(m.tool_call_id));
    let t4 = sat(t3 + opt_estimate(m.reasoning_content));
    sat(t4 + opt_calls_estimate(m.tool_calls))
}

pub open spec fn spec_estimate_messages(ms: Seq<MessageModel>) -> int
    decreases ms.len(),
{
    if ms.len() == 0 {
        0
    } else {
        sat(spec_estimate_messages(ms.drop_last()) + spec_estimate_message(ms.last()))
    }
}

proof fn lemma_estimate_text_nonneg(s: Seq<char>)
    ensures
        spec_estimate_text(s) >= 0,
{
    if s.len() > 0 {
        lemma_cjk_count_bound(s);
    }
}

/// A message's estimate is a count of tokens that fits `usize`.
pub proof fn lemma_estimate_message_range(m: MessageModel)
    ensures
        0 <= spec_estimate_message(m) <= usize::MAX,
        spec_estimate_message(m) >= sat(MESSAGE_OVERHEAD_TOKENS + spec_estimate_text(m.role)),
{
    lemma_estimate_text_nonneg(m.role);
    match m.content {
        Some(t) => lemma_estimate_text_nonneg(t),
        None => {},
    }
    match m.tool_call_id {
        Some(t) => lemma_estimate_text_nonneg(t),
        None => {},
    }
    match m.reasoning_content {
        Some(t) => lemma_estimate_text_nonneg(t),
        None => {},
    }
    match m.tool_calls {
        Some(c) => lemma_estimate_text_nonneg(tool_calls_json(c)),
        None => {},
    }
}

/// A list's estimate is a count of tokens that fits `usize`.
pub proof fn lemma_estimate_messages_range(ms: Seq<MessageModel>)
    ensures
        0 <= spec_estimate_messages(ms) <= usize::MAX,
    decreases ms.len(),
{
    if ms.len() > 0 {
        lemma_estimate_messages_range(ms.drop_last());
        lemma_estimate_message_range(ms.last());
    }
}

/// Estimates add up over a list of messages: the estimate of two lists one
/// after the other is the sum of their estimates (capped at `usize::MAX`,
/// so exactly the sum below that); the empty list counts nothing, and a
/// single message counts its own estimate, at least the overhead plus its
/// role.
pub proof fn lemma_estimate_messages_concat(a: Seq<MessageModel>, b: Seq<MessageModel>)
    ensures
        spec_estimate_messages(a + b) == sat(spec_estimate_messages(a) + spec_estimate_messages(b)),
        spec_estimate_messages(Seq::<MessageModel>::empty()) == 0,
        b.len() == 1 ==> spec_estimate_messages(b) == spec_estimate_message(b[0]),
        b.len() == 1 ==> spec_estimate_messages(b) >= sat(MESSAGE_OVERHEAD_TOKENS + spec_estimate_text(b[0].role)),
    decreases b.len(),
{
    lemma_estimate_messages_range(a);
    if b.len() == 0 {
        assert(a + b =~= a);
    } else {
        let bl = b.drop_last();
        assert((a + b).drop_last() =~= a + bl);
        assert((a + b).last() == b.last());
        lemma_estimate_messages_concat(a, bl);
        lemma_estimate_messages_range(bl);
        lemma_estimate_message_range(b.last());
        if b.len() == 1 {
            assert(bl =~= Seq::<MessageModel>::empty());
            assert(b.last() == b[0]);
        }
    }
}

/// What `truncate_text_to_tokens` gives: the text when its estimate fits,
/// else its first `max(1, 3 * max_tokens)` characters, marked when
/// something was cut.
pub open spec fn spec_truncate_to_tokens(s: Seq<char>, max_tokens: int) -> Seq<char> {
    if spec_estimate_text(s) <= max_tokens {
        s
    } else {
        let max_chars = max_int(sat(3 * max_tokens), 1);
        let t = take_chars(s, max_chars as nat);
        if byte_len(t) < byte_len(s) {
            t + "\n[truncated]"@
        } else {
            t
        }
    }
}

/// `serde_json::to_string` of a `str`: the characters escaped by the
/// escape table of `serde_json`'s serializer, between quotes.  Serialising
/// a string into memory cannot fail.
#[verifier::external_body]
pub(crate) fn json_string_literal(s: &str) -> (r: String)
    ensures
        r@ == json_string(s@),
{
    match serde_json::to_string(s) {
        Ok(v) => v,
        Err(_) => String::new(),
    }
}

fn append_json_string(dst: &mut Vec<char>, s: &String)
    ensures
        final(dst)@ == old(dst)@ + json_string(s@),
{
    let j = json_string_literal(s.as_str());
    append_str(dst, j.as_str());
}

fn tool_call_json_exec(c: &ToolCall) -> (r: Vec<char>)
    ensures
        r@ == tool_call_json(c@),
{
    let mut r: Vec<char> = Vec::new();
    append_str(&mut r, "{\"id\":");
    append_json_string(&mut r, &c.id);
    append_str(&mut r, ",\"type\":");
    append_json_string(&mut r, &c.kind);
    append_str(&mut r, ",\"function\":{\"name\":");
    append_json_string(&mut r, &c.function.name);
    append_str(&mut r, ",\"arguments\":");
    append_json_string(&mut r, &c.function.arguments);
    append_str(&mut r, "}}");
    r
}

/// The compact JSON array of some tool calls, as `serde_json` writes it.
pub fn tool_calls_json_exec(calls: &Vec<ToolCall>) -> (r: Vec<char>)
    ensures
        r@ == tool_calls_json(tool_call_views(calls@)),
{
    let mut parts: Vec<Vec<char>> = Vec::new();
    let mut i: usize = 0;
    while i < calls.len()
        invariant
            i <= calls@.len(),
            parts@.len() == i,
            forall|k: int| 0 <= k < i ==> #[trigger] parts@[k]@ == tool_call_json(calls@[k]@),
        decreases calls.len() - i,
    {
        parts.push(tool_call_json_exec(&calls[i]));
        i = i + 1;
    }
    assert(views(parts@) =~= tool_call_views(calls@).map_values(
        |c: ToolCallModel| tool_call_json(c),
    ));
    let mut r: Vec<char> = Vec::new();
    append_str(&mut r, "[");
    let comma = str_chars(",");
    let inner = join_vecs(&parts, comma.as_slice());
    append_chars(&mut r, inner.as_slice());
    append_str(&mut r, "]");
    r
}

proof fn lemma_div_below(a: int, b: int)
    by (nonlinear_arith)
    requires
        a >= 0,
        b > 1,
    ensures
        a > 0 ==> a / b < a,
        a == 0 ==> a % b == 0,
{
}

fn ceil_div_exec(a: usize, b: usize) -> (r: usize)
    requires
        b > 1,
    ensures
        r == ceil_div(a as int, b as int),
{
    if a % b == 0 {
        a / b
    } else {
        proof {
            lemma_div_below(a as int, b as int);
        }
        a / b + 1
    }
}

fn max_usize(a: usize, b: usize) -> (r: usize)
    ensures
        r == max_int(a as int, b as int),
{
    if a >= b {
        a
    } else {
        b
    }
}

fn sat_double(x: usize) -> (r: usize)
    ensures
        r == sat(2 * x),
{
    match x.checked_mul(2) {
        Some(v) => v,
        None => usize::MAX,
    }
}

fn count_cjk(v: &[char]) -> (r: usize)
    ensures
        r == cjk_count(v@),
{
    let mut n: usize = 0;
    let mut i: usize = 0;
    while i < v.len()
        invariant
            i <= v@.len(),
            n == cjk_count(v@.take(i as int)),
            n <= i,
        decreases v.len() - i,
    {
        proof {
            let t = v@.take(i + 1);
            assert(t.drop_last() =~= v@.take(i as int));
        }
        if is_cjk_exec(v[i]) {
            n = n + 1;
        }
        i = i + 1;
    }
    assert(v@.take(v@.len() as int) =~= v@);
    n
}

/// Estimates token counts of texts and messages.
#[derive(Debug, Clone, Copy, Default)]
pub struct TokenEstimator;

impl TokenEstimator {
    pub fn estimate_text(&self, text: &str) -> (r: usize)
        ensures
            r == spec_estimate_text(text@),
    {
        let v = str_chars(text);
        if v.len() == 0 {
            return 0;
        }
        let chars = v.len();
        let bytes = text.len();
        let cjk = count_cjk(v.as_slice());
        proof {
            lemma_cjk_count_bound(v@);
        }
        let ascii = chars - cjk;
        let chars_estimate = ceil_div_exec(chars, 3);
        let bytes_estimate = ceil_div_exec(bytes, 4);
        let mixed = sat_double(cjk).saturating_add(ceil_div_exec(ascii, 4));
        max_usize(max_usize(chars_estimate, bytes_estimate), mixed)
    }

    fn estimate_opt(&self, o: &Option<String>) -> (r: usize)
        ensures
            r == opt_estimate(crate::api::opt_text(*o)),
    {
        match o {
            Some(s) => self.estimate_text(s.as_str()),
            None => 0,
        }
    }

    pub fn estimate_message(&self, message: &ChatMessage) -> (r: usize)
        ensures
            r == spec_estimate_message(message@),
    {
        let mut tokens = MESSAGE_OVERHEAD_TOKENS.saturating_add(
            self.estimate_text(message.role.as_str()),
        );
        tokens = tokens.saturating_add(self.estimate_opt(&message.content));
        tokens = tokens.saturating_add(self.estimate_opt(&message.tool_call_id));
        tokens = tokens.saturating_add(self.estimate_opt(&message.reasoning_content));
        match &message.tool_calls {
            Some(calls) => {
                let json = tool_calls_json_exec(calls);
                let text = string_from_chars(json.as_slice());
                tokens = tokens.saturating_add(self.estimate_text(text.as_str()));
            },
            None => {},
        }
        tokens
    }

    pub fn estimate_messages(&self, messages: &[ChatMessage]) -> (r: usize)
        ensures
            r == spec_estimate_messages(message_views(messages@)),
    {
        let mut total: usize = 0;
        let mut i: usize = 0;
        while i < messages.len()
            invariant
                i <= messages@.len(),
                total == spec_estimate_messages(message_views(messages@).take(i as int)),
            decreases messages.len() - i,
        {
            proof {
                let t = message_views(messages@).take(i + 1);
                assert(t.drop_last() =~= message_views(messages@).take(i as int));
            }
            total = total.saturating_add(self.estimate_message(&messages[i]));
            i = i + 1;
        }
        assert(message_views(messages@).take(messages@.len() as int) =~= message_views(
            messages@,
        ));
        total
    }

    pub fn truncate_text_to_tokens(&self, text: &str, max_tokens: usize) -> (r: String)
        ensures
            r@ == spec_truncate_to_tokens(text@, max_tokens as int),
    {
        if self.estimate_text(text) <= max_tokens {
            return String::from_str(text);
        }
        let tripled = match max_tokens.checked_mul(3) {
            Some(v) => v,
            None => usize::MAX,
        };
        let max_chars = if tripled >= 1 {
            tripled
        } else {
            1
        };
        let v = str_chars(text);
        let mut t = take_chars_vec(v.as_slice(), max_chars);
        let truncated = string_from_chars(t.as_slice());
        if truncated.as_str().len() < text.len() {
            append_str(&mut t, "\n[truncated]");
            string_from_chars(t.as_slice())
        } else {
            truncated
        }
    }
}

} // verus!
