//! Configuration values and the pure parts of reading them.
//!
//! Reading environment variables and files is done by the caller; the
//! functions here turn the raw values into configuration.
use vstd::prelude::*;
use vstd::string::*;
use crate::text::{
    append_chars, append_str, chars_is_blank, is_ascii_digit, is_whitespace, join, str_chars,
    str_eq, string_from_chars, string_views, trim, trim_vec, views,
};
use crate::tool_result_processor::{DEFAULT_TOOL_OUTPUT_DIR, DEFAULT_TOOL_RESULT_MAX_CHARS, path_join};

verus! {

#[derive(Debug, Clone, Copy, PartialEq, Eq, Structural)]
pub enum FilesystemMode {
    ReadOnly,
    ReadWrite,
}

#[derive(Debug, Clone, Copy, PartialEq, Eq, Structural)]
pub enum ConfirmationPolicy {
    Never,
    Writes,
    Always,
}

impl ConfirmationPolicy {
    pub fn should_confirm(&self, is_write: bool) -> (r: bool)
        ensures
            r == match *self {
                ConfirmationPolicy::Never => false,
                ConfirmationPolicy::Writes => is_write,
                ConfirmationPolicy::Always => true,
            },
    {
        match self {
            ConfirmationPolicy::Never => false,
            ConfirmationPolicy::Writes => is_write,
            ConfirmationPolicy::Always => true,
        }
    }
}

#[derive(Debug, Clone, Copy, PartialEq, Eq, Structural)]
pub enum BashApprovalMode {
    AlwaysPrompt,
    Smart,
    NeverPrompt,
}

pub open spec fn spec_mode_from_str(value: Seq<char>) -> BashApprovalMode {
    if value == "always"@ {
        BashApprovalMode::AlwaysPrompt
    } else if value == "smart"@ {
        BashApprovalMode::Smart
    } else if value == "never"@ {
        BashApprovalMode::NeverPrompt
    } else {
        BashApprovalMode::Smart
    }
}

pub open spec fn spec_mode_str(mode: BashApprovalMode) -> Seq<char> {
    match mode {
        BashApprovalMode::AlwaysPrompt => "always"@,
        BashApprovalMode::Smart => "smart"@,
        BashApprovalMode::NeverPrompt => "never"@,
    }
}

impl BashApprovalMode {
    /// Parses a mode name; unknown names mean `Smart`.
    pub fn from_str(value: &str) -> (m: Self)
        ensures
            m == spec_mode_from_str(value@),
    {
        if str_eq(value, "always") {
            BashApprovalMode::AlwaysPrompt
        } else if str_eq(value, "smart") {
            BashApprovalMode::Smart
        } else if str_eq(value, "never") {
            BashApprovalMode::NeverPrompt
        } else {
            BashApprovalMode::Smart
        }
    }

    pub fn as_str(&self) -> (s: &'static str)
        ensures
            s@ == spec_mode_str(*self),
    {
        match self {
            BashApprovalMode::AlwaysPrompt => "always",
            BashApprovalMode::Smart => "smart",
            BashApprovalMode::NeverPrompt => "never",
        }
    }
}

/// Filesystem tool settings.  Paths are carried as text.
#[derive(Debug, Clone)]
pub struct FilesystemConfig {
    pub enabled: bool,
    pub roots: Vec<String>,
    pub mode: FilesystemMode,
    pub confirm: ConfirmationPolicy,
    pub deny_patterns: Vec<String>,
    pub max_read_bytes: u64,
    pub max_write_bytes: u64,
}

#[derive(Debug, Clone)]
pub struct McpServerConfig {
    pub id: String,
    pub command: String,
    pub args: Vec<String>,
    pub enabled: bool,
}

#[derive(Debug, Clone)]
pub struct ToolResultConfig {
    pub max_injected_chars: usize,
    pub output_dir: String,
}

#[derive(Debug, Clone)]
pub struct StreamingConfig {
    pub enabled: bool,
    pub show_reasoning: bool,
    pub show_tool_call_deltas: bool,
}

/// Bash tool settings.  The model threshold is in thousandths (850 stands for 0.85).
#[derive(Debug, Clone)]
pub struct BashConfig {
    pub enabled: bool,
    pub roots: Vec<String>,
    pub approval_mode: BashApprovalMode,
    pub approval_policy_path: String,
    pub approval_policy_ttl_days: u64,
    pub model_low_risk_threshold_permille: u32,
    pub timeout_ms: u64,
    pub max_timeout_ms: u64,
    pub max_command_chars: usize,
    pub stream_max_bytes: usize,
    pub env_allowlist: Vec<String>,
}

#[derive(Debug, Clone)]
pub struct SubAgentConfig {
    pub enabled: bool,
    pub max_depth: usize,
    pub max_concurrent: usize,
    pub max_tool_rounds: usize,
    pub timeout_ms: u64,
    pub allowed_tools: Vec<String>,
    pub inherit_filesystem: bool,
    pub inherit_bash: bool,
}

/// `value.trim()` when it is not empty.
pub open spec fn spec_clean_value(value: Seq<char>) -> Option<Seq<char>> {
    if trim(value).len() == 0 {
        None
    } else {
        Some(trim(value))
    }
}

pub fn clean_value(value: &str) -> (r: Option<String>)
    ensures
        r matches Some(s) ==> spec_clean_value(value@) == Some(s@),
        r is None ==> spec_clean_value(value@) is None,
{
    let v = str_chars(value);
    let t = trim_vec(v.as_slice());
    if t.len() == 0 {
        None
    } else {
        Some(string_from_chars(t.as_slice()))
    }
}

/// Where an API key comes from: the environment's value when it is not
/// blank, else the stored value when it is not blank; `None` asks the user.
pub open spec fn spec_resolve_key(env_value: Option<Seq<char>>, stored: Option<Seq<char>>) -> Option<
    Seq<char>,
> {
    let from_env = match env_value {
        Some(v) => spec_clean_value(v),
        None => None,
    };
    match from_env {
        Some(v) => Some(v),
        None => match stored {
            Some(v) => spec_clean_value(v),
            None => None,
        },
    }
}

pub fn resolve_key(env_value: Option<&str>, stored: Option<&str>) -> (r: Option<String>)
    ensures
        crate::json::opt_text(r) == spec_resolve_key(
            match env_value {
                Some(v) => Some(v@),
                None => None,
            },
            match stored {
                Some(v) => Some(v@),
                None => None,
            },
        ),
{
    let from_env = match env_value {
        Some(v) => clean_value(v),
        None => None,
    };
    match from_env {
        Some(v) => Some(v),
        None => match stored {
            Some(v) => clean_value(v),
            None => None,
        },
    }
}

// ---------------------------------------------------------------------------
// Parsing raw values.
// ---------------------------------------------------------------------------

pub open spec fn digit_value(c: char) -> int {
    (c as u32) - ('0' as u32)
}

/// The value of a sequence of decimal digits.
pub open spec fn digits_value(s: Seq<char>) -> int
    decreases s.len(),
{
    if s.len() == 0 {
        0
    } else {
        digits_value(s.drop_last()) * 10 + digit_value(s.last())
    }
}

pub open spec fn all_digits(s: Seq<char>) -> bool {
    forall|i: int| 0 <= i < s.len() ==> is_ascii_digit(#[trigger] s[i])
}

/// `str::parse` of an unsigned integer at most `max`: an optional `+`, then
/// at least one decimal digit, and nothing else.
pub open spec fn spec_parse_unsigned(s: Seq<char>, max: int) -> Option<int> {
    let body = if s.len() > 0 && s[0] == '+' {
        s.drop_first()
    } else {
        s
    };
    if body.len() == 0 || !all_digits(body) || digits_value(body) > max {
        None
    } else {
        Some(digits_value(body))
    }
}

proof fn lemma_digits_monotone(s: Seq<char>, i: int)
    requires
        0 <= i <= s.len(),
        all_digits(s),
    ensures
        0 <= digits_value(s.take(i)) <= digits_value(s),
    decreases s.len() - i,
{
    if i < s.len() {
        lemma_digits_monotone(s, i + 1);
        assert(s.take(i + 1).drop_last() =~= s.take(i));
        assert(is_ascii_digit(s[i]));
    } else {
        assert(s.take(i) =~= s);
    }
    lemma_digits_nonneg(s.take(i));
}

proof fn lemma_digits_nonneg(s: Seq<char>)
    requires
        all_digits(s),
    ensures
        digits_value(s) >= 0,
    decreases s.len(),
{
    if s.len() > 0 {
        assert(all_digits(s.drop_last()));
        lemma_digits_nonneg(s.drop_last());
        assert(is_ascii_digit(s.last()));
    }
}

/// Parses a `u64` as `str::parse::<u64>` does.
pub fn parse_u64(s: &str) -> (r: Option<u64>)
    ensures
        match r {
            Some(v) => spec_parse_unsigned(s@, u64::MAX as int) == Some(v as int),
            None => spec_parse_unsigned(s@, u64::MAX as int) is None,
        },
{
    let v = str_chars(s);
    let start: usize = if v.len() > 0 && v[0] == '+' {
        1
    } else {
        0
    };
    let ghost body = if s@.len() > 0 && s@[0] == '+' {
        s@.drop_first()
    } else {
        s@
    };
    assert(body =~= v@.subrange(start as int, v@.len() as int));
    if start >= v.len() {
        return None;
    }
    let mut value: u64 = 0;
    let mut i: usize = start;
    while i < v.len()
        invariant
            start <= i <= v@.len(),
            v@ == s@,
            body == (if s@.len() > 0 && s@[0] == '+' {
                s@.drop_first()
            } else {
                s@
            }),
            body == v@.subrange(start as int, v@.len() as int),
            all_digits(body.take(i - start)),
            value == digits_value(body.take(i - start)),
        decreases v.len() - i,
    {
        let c = v[i];
        if !('0' <= c && c <= '9') {
            assert(body[i - start] == c);
            assert(!all_digits(body));
            return None;
        }
        let d = (c as u32 - '0' as u32) as u64;
        proof {
            assert(body.take(i - start + 1).drop_last() =~= body.take(i - start));
            assert(body.take(i - start + 1).last() == c);
            assert(all_digits(body.take(i - start + 1)));
        }
        match value.checked_mul(10) {
            None => {
                proof {
                    lemma_no_digits_beyond(body, i - start + 1, value as int);
                }
                return None;
            },
            Some(t) => match t.checked_add(d) {
                None => {
                    proof {
                        lemma_no_digits_beyond(body, i - start + 1, value as int);
                    }
                    return None;
                },
                Some(n) => {
                    value = n;
                },
            },
        }
        i = i + 1;
    }
    assert(body.take(body.len() as int) =~= body);
    Some(value)
}

/// When a prefix of digits already exceeds the range, so does the text, or
/// the text is not all digits.
proof fn lemma_no_digits_beyond(body: Seq<char>, n: int, prev: int)
    requires
        1 <= n <= body.len(),
        all_digits(body.take(n)),
        digits_value(body.take(n)) > u64::MAX,
    ensures
        !all_digits(body) || digits_value(body) > u64::MAX,
{
    if all_digits(body) {
        lemma_digits_monotone(body, n);
    }
}

/// Parses a `usize` as `str::parse::<usize>` does.
pub fn parse_usize(s: &str) -> (r: Option<usize>)
    ensures
        match r {
            Some(v) => spec_parse_unsigned(s@, usize::MAX as int) == Some(v as int),
            None => spec_parse_unsigned(s@, usize::MAX as int) is None,
        },
{
    match parse_u64(s) {
        Some(v) => if v as u128 <= usize::MAX as u128 {
            Some(v as usize)
        } else {
            None
        },
        None => {
            proof {
                if spec_parse_unsigned(s@, usize::MAX as int) is Some {
                    assert(usize::MAX <= u64::MAX);
                }
            }
            None
        },
    }
}

/// `str::parse::<bool>`: exactly `true` or `false`.
pub open spec fn spec_parse_bool(s: Seq<char>) -> Option<bool> {
    if s == "true"@ {
        Some(true)
    } else if s == "false"@ {
        Some(false)
    } else {
        None
    }
}

pub fn parse_bool(s: &str) -> (r: Option<bool>)
    ensures
        r == spec_parse_bool(s@),
{
    if str_eq(s, "true") {
        Some(true)
    } else if str_eq(s, "false") {
        Some(false)
    } else {
        None
    }
}

/// `str::split` on one character: the pieces between separators, empty
/// pieces included.
pub open spec fn split_char(s: Seq<char>, sep: char) -> Seq<Seq<char>>
    decreases s.len(),
{
    if s.len() == 0 {
        seq![Seq::empty()]
    } else {
        let prev = split_char(s.drop_last(), sep);
        if s.last() == sep {
            prev.push(Seq::empty())
        } else {
            prev.update(prev.len() - 1, prev.last().push(s.last()))
        }
    }
}

proof fn lemma_split_char_nonempty(s: Seq<char>, sep: char)
    ensures
        split_char(s, sep).len() >= 1,
    decreases s.len(),
{
    if s.len() > 0 {
        lemma_split_char_nonempty(s.drop_last(), sep);
    }
}

pub fn split_char_exec(s: &str, sep: char) -> (r: Vec<Vec<char>>)
    ensures
        views(r@) == split_char(s@, sep),
{
    let v = str_chars(s);
    let mut pieces: Vec<Vec<char>> = Vec::new();
    let mut cur: Vec<char> = Vec::new();
    let mut i: usize = 0;
    assert(v@.take(0) =~= Seq::<char>::empty());
    while i < v.len()
        invariant
            i <= v@.len(),
            views(pieces@).push(cur@) == split_char(v@.take(i as int), sep),
        decreases v.len() - i,
    {
        proof {
            assert(v@.take(i + 1).drop_last() =~= v@.take(i as int));
            assert(v@.take(i + 1).last() == v@[i as int]);
            lemma_split_char_nonempty(v@.take(i as int), sep);
        }
        let ghost before = views(pieces@);
        let ghost cur_before = cur@;
        if v[i] == sep {
            let done = cur;
            pieces.push(done);
            cur = Vec::new();
            assert(views(pieces@).push(cur@) =~= before.push(cur_before).push(Seq::<char>::empty()));
        } else {
            cur.push(v[i]);
            assert(views(pieces@).push(cur@) =~= before.push(cur_before).update(
                before.len() as int,
                cur_before.push(v@[i as int]),
            ));
        }
        i = i + 1;
    }
    assert(v@.take(v@.len() as int) =~= v@);
    let ghost before = views(pieces@);
    pieces.push(cur);
    assert(views(pieces@) =~= split_char(s@, sep));
    pieces
}

/// The trimmed pieces that are not blank.
pub open spec fn clean_pieces(pieces: Seq<Seq<char>>) -> Seq<Seq<char>>
    decreases pieces.len(),
{
    if pieces.len() == 0 {
        Seq::empty()
    } else {
        clean_pieces(pieces.drop_last()) + match spec_clean_value(pieces.last()) {
            Some(v) => seq![v],
            None => Seq::empty(),
        }
    }
}

fn clean_all(pieces: &Vec<Vec<char>>) -> (r: Vec<String>)
    ensures
        string_views(r@) == clean_pieces(views(pieces@)),
{
    let mut r: Vec<String> = Vec::new();
    let mut i: usize = 0;
    while i < pieces.len()
        invariant
            i <= pieces@.len(),
            string_views(r@) == clean_pieces(views(pieces@).take(i as int)),
        decreases pieces.len() - i,
    {
        proof {
            assert(views(pieces@).take(i + 1).drop_last() =~= views(pieces@).take(i as int));
            assert(views(pieces@).take(i + 1).last() == pieces@[i as int]@);
        }
        let t = trim_vec(pieces[i].as_slice());
        let ghost before = string_views(r@);
        if t.len() > 0 {
            r.push(string_from_chars(t.as_slice()));
            assert(string_views(r@) =~= before + seq![trim(pieces@[i as int]@)]);
        } else {
            assert(before + Seq::<Seq<char>>::empty() =~= before);
        }
        i = i + 1;
    }
    assert(views(pieces@).take(pieces@.len() as int) =~= views(pieces@));
    r
}

/// The non-blank trimmed pieces of a list separated by `sep`.
pub fn split_paths(value: &str, sep: char) -> (r: Vec<String>)
    ensures
        string_views(r@) == clean_pieces(split_char(value@, sep)),
{
    let pieces = split_char_exec(value, sep);
    clean_all(&pieces)
}

/// The non-blank trimmed items of a comma-separated list.
pub fn split_csv(value: &str) -> (r: Vec<String>)
    ensures
        string_views(r@) == clean_pieces(split_char(value@, ',')),
{
    let pieces = split_char_exec(value, ',');
    clean_all(&pieces)
}

fn strings_of(pieces: &Vec<Vec<char>>) -> (r: Vec<String>)
    ensures
        string_views(r@) == views(pieces@),
{
    let mut r: Vec<String> = Vec::new();
    let mut i: usize = 0;
    while i < pieces.len()
        invariant
            i <= pieces@.len(),
            string_views(r@) == views(pieces@).take(i as int),
        decreases pieces.len() - i,
    {
        let ghost before = string_views(r@);
        r.push(string_from_chars(pieces[i].as_slice()));
        assert(views(pieces@).take(i + 1) =~= views(pieces@).take(i as int).push(pieces@[i as int]@));
        assert(string_views(r@) =~= before.push(pieces@[i as int]@));
        i = i + 1;
    }
    assert(views(pieces@).take(pieces@.len() as int) =~= views(pieces@));
    r
}

fn strings_from(items: &[&str]) -> (r: Vec<String>)
    ensures
        r@.len() == items@.len(),
        forall|k: int| 0 <= k < items@.len() ==> #[trigger] r@[k]@ == items@[k]@,
{
    let mut r: Vec<String> = Vec::new();
    let mut i: usize = 0;
    while i < items.len()
        invariant
            i <= items@.len(),
            r@.len() == i,
            forall|k: int| 0 <= k < i ==> #[trigger] r@[k]@ == items@[k]@,
        decreases items.len() - i,
    {
        r.push(String::from_str(items[i]));
        i = i + 1;
    }
    r
}

pub open spec fn spec_default_env_allowlist() -> Seq<Seq<char>> {
    seq!["PATH"@, "HOME"@, "USER"@, "TERM"@, "TMPDIR"@]
}

pub fn default_bash_env_allowlist() -> (r: Vec<String>)
    ensures
        string_views(r@) == spec_default_env_allowlist(),
{
    let mut r: Vec<String> = Vec::new();
    r.push(String::from_str("PATH"));
    r.push(String::from_str("HOME"));
    r.push(String::from_str("USER"));
    r.push(String::from_str("TERM"));
    r.push(String::from_str("TMPDIR"));
    assert(string_views(r@) =~= spec_default_env_allowlist());
    r
}

pub open spec fn spec_default_deny_patterns() -> Seq<Seq<char>> {
    seq![
        ".git/**"@,
        ".env"@,
        ".env.*"@,
        "**/id_rsa"@,
        "**/id_ed25519"@,
        "**/*.pem"@,
        "**/*.key"@,
        ".sparrow_agent/**"@,
    ]
}

pub fn default_deny_patterns() -> (r: Vec<String>)
    ensures
        string_views(r@) == spec_default_deny_patterns(),
{
    let mut r: Vec<String> = Vec::new();
    r.push(String::from_str(".git/**"));
    r.push(String::from_str(".env"));
    r.push(String::from_str(".env.*"));
    r.push(String::from_str("**/id_rsa"));
    r.push(String::from_str("**/id_ed25519"));
    r.push(String::from_str("**/*.pem"));
    r.push(String::from_str("**/*.key"));
    r.push(String::from_str(".sparrow_agent/**"));
    assert(string_views(r@) =~= spec_default_deny_patterns());
    r
}

/// The base system prompt, before the runtime paths are added.
pub const DEFAULT_SYSTEM_PROMPT: &'static str = "You are a helpful assistant. when read the file, ignore the build targer files like target dir in rust project, ouptput or dist dir in frontend project.  do not reade the entire project dir tree. read the file in entry file first.";

pub const DEFAULT_MODEL: &'static str = "deepseek-v4-pro";

pub const DEFAULT_REASONING_EFFORT: &'static str = "high";

pub const DEFAULT_MAX_TOOL_ROUNDS: usize = 100;

pub const CONFIG_DIR_NAME: &'static str = ".sparrow_agent";

pub const CONFIG_FILE_NAME: &'static str = "config.json";

pub const DEFAULT_MAX_READ_BYTES: u64 = 262_144;

pub const DEFAULT_MAX_WRITE_BYTES: u64 = 262_144;

pub const DEFAULT_BASH_TIMEOUT_MS: u64 = 30_000;

pub const DEFAULT_BASH_MAX_TIMEOUT_MS: u64 = 120_000;

pub const DEFAULT_BASH_MAX_COMMAND_CHARS: usize = 8_192;

pub const DEFAULT_BASH_STREAM_MAX_BYTES: usize = 8_192;

pub const DEFAULT_BASH_APPROVAL_POLICY_TTL_DAYS: u64 = 90;

pub const DEFAULT_BASH_MODEL_LOW_RISK_THRESHOLD_PERMILLE: u32 = 850;

/// `$HOME/.sparrow_agent/bash_approval_policies.json`, with `.` for a
/// missing home.
pub open spec fn spec_default_policy_path(home: Option<Seq<char>>) -> Seq<char> {
    path_join(
        path_join(
            match home {
                Some(h) => h,
                None => "."@,
            },
            ".sparrow_agent"@,
        ),
        "bash_approval_policies.json"@,
    )
}

pub(crate) fn path_join_exec(dir: &[char], name: &str) -> (r: Vec<char>)
    ensures
        r@ == path_join(dir@, name@),
{
    let mut r: Vec<char> = Vec::new();
    append_chars(&mut r, dir);
    if r.len() > 0 && r[r.len() - 1] != '/' {
        append_str(&mut r, "/");
    }
    append_str(&mut r, name);
    r
}

pub fn default_bash_approval_policy_path(home: Option<&str>) -> (r: String)
    ensures
        r@ == spec_default_policy_path(match home {
            Some(h) => Some(h@),
            None => None,
        }),
{
    let base = match home {
        Some(h) => str_chars(h),
        None => str_chars("."),
    };
    let dir = path_join_exec(base.as_slice(), ".sparrow_agent");
    let file = path_join_exec(dir.as_slice(), "bash_approval_policies.json");
    string_from_chars(file.as_slice())
}

/// The raw bash settings, as read from the environment (already cleaned),
/// with the model threshold already parsed into thousandths.
#[derive(Debug, Clone, Default)]
pub struct BashEnvValues {
    pub enabled: Option<String>,
    pub roots: Option<String>,
    pub approval_mode: Option<String>,
    pub approval_policy_path: Option<String>,
    pub approval_policy_ttl_days: Option<String>,
    pub model_low_risk_threshold_permille: Option<u32>,
    pub timeout_ms: Option<String>,
    pub max_command_chars: Option<String>,
    pub stream_max_bytes: Option<String>,
    pub env_allowlist: Option<String>,
    pub home: Option<String>,
}

pub open spec fn positive_u64(o: Option<String>) -> Option<int> {
    match o {
        Some(s) => match spec_parse_unsigned(s@, u64::MAX as int) {
            Some(v) => if v > 0 {
                Some(v)
            } else {
                None
            },
            None => None,
        },
        None => None,
    }
}

pub open spec fn positive_usize(o: Option<String>) -> Option<int> {
    match o {
        Some(s) => match spec_parse_unsigned(s@, usize::MAX as int) {
            Some(v) => if v > 0 {
                Some(v)
            } else {
                None
            },
            None => None,
        },
        None => None,
    }
}

fn positive_u64_exec(o: &Option<String>) -> (r: Option<u64>)
    ensures
        match r {
            Some(v) => positive_u64(*o) == Some(v as int),
            None => positive_u64(*o) is None,
        },
{
    match o {
        Some(s) => match parse_u64(s.as_str()) {
            Some(v) => if v > 0 {
                Some(v)
            } else {
                None
            },
            None => None,
        },
        None => None,
    }
}

fn positive_usize_exec(o: &Option<String>) -> (r: Option<usize>)
    ensures
        match r {
            Some(v) => positive_usize(*o) == Some(v as int),
            None => positive_usize(*o) is None,
        },
{
    match o {
        Some(s) => match parse_usize(s.as_str()) {
            Some(v) => if v > 0 {
                Some(v)
            } else {
                None
            },
            None => None,
        },
        None => None,
    }
}

impl BashConfig {
    /// The bash settings from raw values: enabled unless set to `false`, roots
    /// `.` unless given, smart approval, 90 days, 0.85, a 30 s timeout
    /// capped at 120 s, and the default limits and environment allowlist.
    pub fn from_values(v: &BashEnvValues, path_separator: char) -> (c: Self)
        ensures
            c.enabled == match v.enabled {
                Some(s) => spec_parse_bool(s@) != Some(false),
                None => true,
            },
            string_views(c.roots@) == match v.roots {
                Some(r) if clean_pieces(split_char(r@, path_separator)).len() > 0 => clean_pieces(
                    split_char(r@, path_separator),
                ),
                _ => seq!["."@],
            },
            c.approval_mode == match v.approval_mode {
                Some(m) => spec_mode_from_str(m@),
                None => BashApprovalMode::Smart,
            },
            c.approval_policy_path@ == match v.approval_policy_path {
                Some(p) => p@,
                None => spec_default_policy_path(match v.home {
                    Some(h) => Some(h@),
                    None => None,
                }),
            },
            c.approval_policy_ttl_days == match positive_u64(v.approval_policy_ttl_days) {
                Some(d) => d,
                None => DEFAULT_BASH_APPROVAL_POLICY_TTL_DAYS as int,
            },
            c.model_low_risk_threshold_permille == match v.model_low_risk_threshold_permille {
                Some(t) if t <= 1000 => t,
                _ => DEFAULT_BASH_MODEL_LOW_RISK_THRESHOLD_PERMILLE,
            },
            c.timeout_ms == match positive_u64(v.timeout_ms) {
                Some(t) => if t <= DEFAULT_BASH_MAX_TIMEOUT_MS {
                    t
                } else {
                    DEFAULT_BASH_MAX_TIMEOUT_MS as int
                },
                None => DEFAULT_BASH_TIMEOUT_MS as int,
            },
            c.max_timeout_ms == DEFAULT_BASH_MAX_TIMEOUT_MS,
            c.max_command_chars == match positive_usize(v.max_command_chars) {
                Some(n) => n,
                None => DEFAULT_BASH_MAX_COMMAND_CHARS as int,
            },
            c.stream_max_bytes == match positive_usize(v.stream_max_bytes) {
                Some(n) => n,
                None => DEFAULT_BASH_STREAM_MAX_BYTES as int,
            },
            string_views(c.env_allowlist@) == match v.env_allowlist {
                Some(a) if clean_pieces(split_char(a@, ',')).len() > 0 => clean_pieces(
                    split_char(a@, ','),
                ),
                _ => spec_default_env_allowlist(),
            },
    {
        let enabled = match &v.enabled {
            Some(s) => match parse_bool(s.as_str()) {
                Some(b) => b,
                None => true,
            },
            None => true,
        };
        let roots = match &v.roots {
            Some(r) => {
                let parts = split_paths(r.as_str(), path_separator);
                if parts.len() > 0 {
                    parts
                } else {
                    let mut d: Vec<String> = Vec::new();
                    d.push(String::from_str("."));
                    assert(string_views(d@) =~= seq!["."@]);
                    d
                }
            },
            None => {
                let mut d: Vec<String> = Vec::new();
                d.push(String::from_str("."));
                assert(string_views(d@) =~= seq!["."@]);
                d
            },
        };
        let approval_mode = match &v.approval_mode {
            Some(m) => BashApprovalMode::from_str(m.as_str()),
            None => BashApprovalMode::Smart,
        };
        let approval_policy_path = match &v.approval_policy_path {
            Some(p) => p.clone(),
            None => default_bash_approval_policy_path(
                match &v.home {
                    Some(h) => Some(h.as_str()),
                    None => None,
                },
            ),
        };
        let approval_policy_ttl_days = match positive_u64_exec(&v.approval_policy_ttl_days) {
            Some(d) => d,
            None => DEFAULT_BASH_APPROVAL_POLICY_TTL_DAYS,
        };
        let model_low_risk_threshold_permille = match v.model_low_risk_threshold_permille {
            Some(t) => if t <= 1000 {
                t
            } else {
                DEFAULT_BASH_MODEL_LOW_RISK_THRESHOLD_PERMILLE
            },
            None => DEFAULT_BASH_MODEL_LOW_RISK_THRESHOLD_PERMILLE,
        };
        let timeout_ms = match positive_u64_exec(&v.timeout_ms) {
            Some(t) => if t <= DEFAULT_BASH_MAX_TIMEOUT_MS {
                t
            } else {
                DEFAULT_BASH_MAX_TIMEOUT_MS
            },
            None => DEFAULT_BASH_TIMEOUT_MS,
        };
        let max_command_chars = match positive_usize_exec(&v.max_command_chars) {
            Some(n) => n,
            None => DEFAULT_BASH_MAX_COMMAND_CHARS,
        };
        let stream_max_bytes = match positive_usize_exec(&v.stream_max_bytes) {
            Some(n) => n,
            None => DEFAULT_BASH_STREAM_MAX_BYTES,
        };
        let env_allowlist = match &v.env_allowlist {
            Some(a) => {
                let parts = split_csv(a.as_str());
                if parts.len() > 0 {
                    parts
                } else {
                    default_bash_env_allowlist()
                }
            },
            None => default_bash_env_allowlist(),
        };
        BashConfig {
            enabled,
            roots,
            approval_mode,
            approval_policy_path,
            approval_policy_ttl_days,
            model_low_risk_threshold_permille,
            timeout_ms,
            max_timeout_ms: DEFAULT_BASH_MAX_TIMEOUT_MS,
            max_command_chars,
            stream_max_bytes,
            env_allowlist,
        }
    }
}

pub open spec fn bool_or(o: Option<String>, default: bool) -> bool {
    match o {
        Some(s) => match spec_parse_bool(s@) {
            Some(b) => b,
            None => default,
        },
        None => default,
    }
}

fn bool_or_exec(o: &Option<String>, default: bool) -> (b: bool)
    ensures
        b == bool_or(*o, default),
{
    match o {
        Some(s) => match parse_bool(s.as_str()) {
            Some(b) => b,
            None => default,
        },
        None => default,
    }
}

pub open spec fn spec_fs_mode(o: Option<String>) -> FilesystemMode {
    match o {
        Some(s) => if s@ == "read-only"@ {
            FilesystemMode::ReadOnly
        } else {
            FilesystemMode::ReadWrite
        },
        None => FilesystemMode::ReadWrite,
    }
}

pub open spec fn spec_confirm(o: Option<String>) -> ConfirmationPolicy {
    match o {
        Some(s) => if s@ == "never"@ {
            ConfirmationPolicy::Never
        } else if s@ == "always"@ {
            ConfirmationPolicy::Always
        } else {
            ConfirmationPolicy::Writes
        },
        None => ConfirmationPolicy::Writes,
    }
}

impl FilesystemConfig {
    /// The filesystem settings from raw values: enabled unless disabled,
    /// roots `.` unless given (split, pieces kept as they are), read-write,
    /// confirming writes, with the default deny patterns and limits.
    pub fn from_values(
        enabled: Option<String>,
        roots: Option<String>,
        mode: Option<String>,
        confirm: Option<String>,
        path_separator: char,
    ) -> (c: Self)
        ensures
            c.enabled == bool_or(enabled, true),
            string_views(c.roots@) == match roots {
                Some(r) => split_char(r@, path_separator),
                None => seq!["."@],
            },
            c.mode == spec_fs_mode(mode),
            c.confirm == spec_confirm(confirm),
            string_views(c.deny_patterns@) == spec_default_deny_patterns(),
            c.max_read_bytes == DEFAULT_MAX_READ_BYTES,
            c.max_write_bytes == DEFAULT_MAX_WRITE_BYTES,
    {
        let roots_v = match &roots {
            Some(r) => {
                let pieces = split_char_exec(r.as_str(), path_separator);
                strings_of(&pieces)
            },
            None => {
                let mut d: Vec<String> = Vec::new();
                d.push(String::from_str("."));
                assert(string_views(d@) =~= seq!["."@]);
                d
            },
        };
        let mode_v = match &mode {
            Some(s) => if str_eq(s.as_str(), "read-only") {
                FilesystemMode::ReadOnly
            } else {
                FilesystemMode::ReadWrite
            },
            None => FilesystemMode::ReadWrite,
        };
        let confirm_v = match &confirm {
            Some(s) => if str_eq(s.as_str(), "never") {
                ConfirmationPolicy::Never
            } else if str_eq(s.as_str(), "always") {
                ConfirmationPolicy::Always
            } else {
                ConfirmationPolicy::Writes
            },
            None => ConfirmationPolicy::Writes,
        };
        FilesystemConfig {
            enabled: bool_or_exec(&enabled, true),
            roots: roots_v,
            mode: mode_v,
            confirm: confirm_v,
            deny_patterns: default_deny_patterns(),
            max_read_bytes: DEFAULT_MAX_READ_BYTES,
            max_write_bytes: DEFAULT_MAX_WRITE_BYTES,
        }
    }
}

impl ToolResultConfig {
    /// The tool result settings: a positive limit, else 20000 characters;
    /// an output directory that is not blank (trimmed), else the default.
    pub fn from_values(max_chars: Option<String>, output_dir: Option<String>) -> (c: Self)
        ensures
            c.max_injected_chars == match positive_usize(max_chars) {
                Some(n) => n,
                None => DEFAULT_TOOL_RESULT_MAX_CHARS as int,
            },
            c.output_dir@ == match output_dir {
                Some(d) if spec_clean_value(d@) is Some => spec_clean_value(d@)->0,
                _ => DEFAULT_TOOL_OUTPUT_DIR@,
            },
    {
        let max_injected_chars = match positive_usize_exec(&max_chars) {
            Some(n) => n,
            None => DEFAULT_TOOL_RESULT_MAX_CHARS,
        };
        let dir = match &output_dir {
            Some(d) => match clean_value(d.as_str()) {
                Some(c) => c,
                None => String::from_str(DEFAULT_TOOL_OUTPUT_DIR),
            },
            None => String::from_str(DEFAULT_TOOL_OUTPUT_DIR),
        };
        ToolResultConfig { max_injected_chars, output_dir: dir }
    }
}

impl StreamingConfig {
    /// Streaming on and reasoning shown unless turned off; tool call deltas
    /// hidden unless turned on.
    pub fn from_values(
        enabled: Option<String>,
        show_reasoning: Option<String>,
        show_tool_call_deltas: Option<String>,
    ) -> (c: Self)
        ensures
            c.enabled == bool_or(enabled, true),
            c.show_reasoning == bool_or(show_reasoning, true),
            c.show_tool_call_deltas == bool_or(show_tool_call_deltas, false),
    {
        StreamingConfig {
            enabled: bool_or_exec(&enabled, true),
            show_reasoning: bool_or_exec(&show_reasoning, true),
            show_tool_call_deltas: bool_or_exec(&show_tool_call_deltas, false),
        }
    }
}

impl McpServerConfig {
    /// The filesystem MCP server: `npx` unless another command is given,
    /// and the official server package on the current directory unless
    /// other arguments are given.
    pub fn default_filesystem(
        command: Option<String>,
        args: Option<Vec<String>>,
        current_dir: String,
    ) -> (c: Self)
        ensures
            c.id@ == "filesystem"@,
            c.command@ == match command {
                Some(cmd) => cmd@,
                None => "npx"@,
            },
            string_views(c.args@) == match args {
                Some(a) => string_views(a@),
                None => seq!["-y"@, "@modelcontextprotocol/server-filesystem"@, current_dir@],
            },
            c.enabled,
    {
        let command = match command {
            Some(cmd) => cmd,
            None => String::from_str("npx"),
        };
        let args = match args {
            Some(a) => a,
            None => {
                let mut a: Vec<String> = Vec::new();
                a.push(String::from_str("-y"));
                a.push(String::from_str("@modelcontextprotocol/server-filesystem"));
                a.push(current_dir);
                assert(string_views(a@) =~= seq![
                    "-y"@,
                    "@modelcontextprotocol/server-filesystem"@,
                    current_dir@,
                ]);
                a
            },
        };
        McpServerConfig { id: String::from_str("filesystem"), command, args, enabled: true }
    }
}

/// The system prompt with the runtime paths appended.
pub open spec fn spec_prompt_with_paths(
    base: Seq<char>,
    current_dir: Option<Seq<char>>,
    executable_path: Option<Seq<char>>,
) -> Seq<char> {
    crate::text::trim_end(base) + "\n\nRuntime file system context:"@ + match current_dir {
        Some(d) => "\n- Current working directory: "@ + d,
        None => Seq::empty(),
    } + match executable_path {
        Some(e) => "\n- Running Sparrow Agent executable path: "@ + e,
        None => Seq::empty(),
    }
        + "\nUse these exact paths when referring to the agent's local file system. Do not invent or guess absolute paths."@
}

pub fn system_prompt_with_runtime_paths(
    base_prompt: &str,
    current_dir: Option<&str>,
    executable_path: Option<&str>,
) -> (r: String)
    ensures
        r@ == spec_prompt_with_paths(
            base_prompt@,
            match current_dir {
                Some(d) => Some(d@),
                None => None,
            },
            match executable_path {
                Some(e) => Some(e@),
                None => None,
            },
        ),
{
    let b = str_chars(base_prompt);
    let mut prompt = crate::text::trim_end_vec(b.as_slice());
    append_str(&mut prompt, "\n\nRuntime file system context:");
    match current_dir {
        Some(d) => {
            append_str(&mut prompt, "\n- Current working directory: ");
            append_str(&mut prompt, d);
        },
        None => {},
    }
    match executable_path {
        Some(e) => {
            append_str(&mut prompt, "\n- Running Sparrow Agent executable path: ");
            append_str(&mut prompt, e);
        },
        None => {},
    }
    append_str(
        &mut prompt,
        "\nUse these exact paths when referring to the agent's local file system. Do not invent or guess absolute paths.",
    );
    string_from_chars(prompt.as_slice())
}

/// The whole configuration of the agent.  The sub-agent settings are
/// included.
#[derive(Debug, Clone)]
pub struct AppConfig {
    pub api_key: String,
    pub tavily_api_key: String,
    pub model: String,
    pub system_prompt: String,
    pub reasoning_effort: String,
    pub max_tool_rounds: usize,
    pub filesystem: FilesystemConfig,
    pub mcp_servers: Vec<McpServerConfig>,
    pub tool_results: ToolResultConfig,
    pub streaming: StreamingConfig,
    pub bash: BashConfig,
    pub sub_agent: SubAgentConfig,
}

impl AppConfig {
    /// The same configuration with the interactive tools (bash) turned off.
    pub fn without_interactive_tools(self) -> (c: Self)
        ensures
            c == (AppConfig { bash: BashConfig { enabled: false, ..self.bash }, ..self }),
    {
        let mut c = self;
        c.bash.enabled = false;
        c
    }
}

} // verus!
