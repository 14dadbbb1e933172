//! Local, rule-based risk classification of bash commands.
//!
//! A command is first normalised (`NormalizedCommand::parse`): split into
//! segments at unquoted `|`, `;`, `||` and `&&`, and each segment into shell
//! words.  `BashRiskAssessor::classify` then applies fixed rules that mark a
//! command as blocked, high, medium or low risk.
use vstd::prelude::*;
use vstd::string::*;
use crate::text::{
    chars_contains_char, chars_contains_str, chars_eq_str, chars_starts_with_str, contains_sub,
    is_whitespace, is_whitespace_exec, join, join_strings, join_vecs, slice_vec, starts_with,
    str_chars, str_eq, string_from_chars, string_views, trim, trim_vec, views,
};

verus! {

#[derive(Debug, Clone, Copy, PartialEq, Eq, Structural)]
pub enum BashRiskLevel {
    Low,
    Medium,
    High,
    Blocked,
}

#[derive(Debug, Clone, PartialEq)]
pub struct BashRiskSignal {
    pub kind: String,
    pub value: String,
    pub severity: BashRiskLevel,
}

pub struct SignalModel {
    pub kind: Seq<char>,
    pub value: Seq<char>,
    pub severity: BashRiskLevel,
}

impl View for BashRiskSignal {
    type V = SignalModel;

    open spec fn view(&self) -> SignalModel {
        SignalModel { kind: self.kind@, value: self.value@, severity: self.severity }
    }
}

pub open spec fn sig(kind: Seq<char>, value: Seq<char>, severity: BashRiskLevel) -> SignalModel {
    SignalModel { kind, value, severity }
}

impl BashRiskSignal {
    fn new(kind: &str, value: String, severity: BashRiskLevel) -> (s: Self)
        ensures
            s@ == sig(kind@, value@, severity),
    {
        BashRiskSignal { kind: String::from_str(kind), value, severity }
    }
}

/// A request to classify one command.  `cwd` and the roots are carried as text.
#[derive(Debug, Clone)]
pub struct BashRiskRequest {
    pub command: String,
    pub cwd: String,
    pub allowed_roots: Vec<String>,
    pub timeout_ms: u64,
}

#[derive(Debug, Clone, PartialEq, Eq)]
pub enum PolicyCandidate {
    ExactNormalizedCommand { command: String },
    ArgvExact { program: String, args: Vec<String> },
    ArgvPrefix { program: String, args: Vec<String> },
    ToolFamily { program: String },
}

pub enum CandidateModel {
    ExactNormalizedCommand { command: Seq<char> },
    ArgvExact { program: Seq<char>, args: Seq<Seq<char>> },
    ArgvPrefix { program: Seq<char>, args: Seq<Seq<char>> },
    ToolFamily { program: Seq<char> },
}

impl View for PolicyCandidate {
    type V = CandidateModel;

    open spec fn view(&self) -> CandidateModel {
        match self {
            PolicyCandidate::ExactNormalizedCommand { command } => CandidateModel::ExactNormalizedCommand {
                command: command@,
            },
            PolicyCandidate::ArgvExact { program, args } => CandidateModel::ArgvExact {
                program: program@,
                args: string_views(args@),
            },
            PolicyCandidate::ArgvPrefix { program, args } => CandidateModel::ArgvPrefix {
                program: program@,
                args: string_views(args@),
            },
            PolicyCandidate::ToolFamily { program } => CandidateModel::ToolFamily {
                program: program@,
            },
        }
    }
}

pub open spec fn candidate_view(c: Option<PolicyCandidate>) -> Option<CandidateModel> {
    match c {
        Some(c) => Some(c@),
        None => None,
    }
}

#[derive(Debug, Clone, PartialEq, Eq)]
pub struct ParsedCommand {
    pub program: String,
    pub args: Vec<String>,
}

pub struct CommandModel {
    pub program: Seq<char>,
    pub args: Seq<Seq<char>>,
}

impl View for ParsedCommand {
    type V = CommandModel;

    open spec fn view(&self) -> CommandModel {
        CommandModel { program: self.program@, args: string_views(self.args@) }
    }
}

#[derive(Debug, Clone, PartialEq, Eq)]
pub struct NormalizedCommand {
    pub original: String,
    pub normalized: String,
    pub commands: Vec<ParsedCommand>,
    pub has_pipe: bool,
    pub has_control_operator: bool,
    pub has_redirection: bool,
    pub has_complex_syntax: bool,
}

pub struct NormalizedModel {
    pub original: Seq<char>,
    pub normalized: Seq<char>,
    pub commands: Seq<CommandModel>,
    pub has_pipe: bool,
    pub has_control_operator: bool,
    pub has_redirection: bool,
    pub has_complex_syntax: bool,
}

pub open spec fn command_views(v: Seq<ParsedCommand>) -> Seq<CommandModel> {
    v.map_values(|c: ParsedCommand| c@)
}

impl View for NormalizedCommand {
    type V = NormalizedModel;

    open spec fn view(&self) -> NormalizedModel {
        NormalizedModel {
            original: self.original@,
            normalized: self.normalized@,
            commands: command_views(self.commands@),
            has_pipe: self.has_pipe,
            has_control_operator: self.has_control_operator,
            has_redirection: self.has_redirection,
            has_complex_syntax: self.has_complex_syntax,
        }
    }
}

// ---------------------------------------------------------------------------
// Lexing: segments, shell words and whitespace words.
// ---------------------------------------------------------------------------

pub open spec fn flush_trimmed(acc: Seq<Seq<char>>, cur: Seq<char>) -> Seq<Seq<char>> {
    if trim(cur).len() == 0 {
        acc
    } else {
        acc.push(trim(cur))
    }
}

pub open spec fn is_quote(c: char) -> bool {
    c == '\'' || c == '"'
}

pub open spec fn next_quote(quote: Option<char>, ch: char) -> Option<char> {
    if quote == Some(ch) {
        None
    } else if quote is None {
        Some(ch)
    } else {
        quote
    }
}

/// The scan behind `split_command_segments`, from position `i` with the given state.
pub open spec fn segments_from(
    s: Seq<char>,
    i: int,
    quote: Option<char>,
    cur: Seq<char>,
    acc: Seq<Seq<char>>,
) -> Seq<Seq<char>>
    decreases s.len() - i,
{
    if i < 0 || i >= s.len() {
        flush_trimmed(acc, cur)
    } else {
        let ch = s[i];
        if is_quote(ch) {
            segments_from(s, i + 1, next_quote(quote, ch), cur.push(ch), acc)
        } else if quote is None && (ch == '|' || ch == ';') {
            let skip = ch == '|' && i + 1 < s.len() && s[i + 1] == '|';
            segments_from(
                s,
                if skip {
                    i + 2
                } else {
                    i + 1
                },
                quote,
                Seq::empty(),
                flush_trimmed(acc, cur),
            )
        } else if quote is None && ch == '&' && i + 1 < s.len() && s[i + 1] == '&' {
            segments_from(s, i + 2, quote, Seq::empty(), flush_trimmed(acc, cur))
        } else {
            segments_from(s, i + 1, quote, cur.push(ch), acc)
        }
    }
}

/// The command segments of `s`: split at unquoted `|`, `||`, `;` and `&&`,
/// trimmed, with empty segments dropped.
pub open spec fn command_segments(s: Seq<char>) -> Seq<Seq<char>> {
    segments_from(s, 0, None, Seq::empty(), Seq::empty())
}

fn split_command_segments(command: &[char]) -> (r: Vec<Vec<char>>)
    ensures
        views(r@) == command_segments(command@),
{
    let mut segments: Vec<Vec<char>> = Vec::new();
    let mut current: Vec<char> = Vec::new();
    let mut quote: Option<char> = None;
    let mut i: usize = 0;
    let n = command.len();
    assert(views(segments@) =~= Seq::<Seq<char>>::empty());
    assert(current@ =~= Seq::<char>::empty());
    while i < n
        invariant
            n == command@.len(),
            i <= n,
            command_segments(command@) == segments_from(
                command@,
                i as int,
                quote,
                current@,
                views(segments@),
            ),
        decreases n - i,
    {
        let ch = command[i];
        if ch == '\'' || ch == '"' {
            if quote == Some(ch) {
                quote = None;
            } else if quote.is_none() {
                quote = Some(ch);
            }
            current.push(ch);
            i = i + 1;
        } else if quote.is_none() && (ch == '|' || ch == ';') {
            push_trimmed(&mut segments, &current);
            current = Vec::new();
            if ch == '|' && i + 1 < n && command[i + 1] == '|' {
                i = i + 2;
            } else {
                i = i + 1;
            }
        } else if quote.is_none() && ch == '&' && i + 1 < n && command[i + 1] == '&' {
            push_trimmed(&mut segments, &current);
            current = Vec::new();
            i = i + 2;
        } else {
            current.push(ch);
            i = i + 1;
        }
    }
    push_trimmed(&mut segments, &current);
    segments
}

fn push_trimmed(segments: &mut Vec<Vec<char>>, current: &Vec<char>)
    ensures
        views(final(segments)@) == flush_trimmed(views(old(segments)@), current@),
{
    let t = trim_vec(current.as_slice());
    if t.len() > 0 {
        let ghost before = segments@;
        segments.push(t);
        assert(views(segments@) =~= views(before).push(trim(current@)));
    }
}

pub open spec fn flush_nonempty(acc: Seq<Seq<char>>, cur: Seq<char>) -> Seq<Seq<char>> {
    if cur.len() == 0 {
        acc
    } else {
        acc.push(cur)
    }
}

/// The scan behind `shell_words`, from position `i` with the given state.
pub open spec fn words_from(
    s: Seq<char>,
    i: int,
    quote: Option<char>,
    cur: Seq<char>,
    acc: Seq<Seq<char>>,
) -> Seq<Seq<char>>
    decreases s.len() - i,
{
    if i < 0 || i >= s.len() {
        flush_nonempty(acc, cur)
    } else {
        let ch = s[i];
        if is_quote(ch) {
            if quote == Some(ch) {
                words_from(s, i + 1, None, cur, acc)
            } else if quote is None {
                words_from(s, i + 1, Some(ch), cur, acc)
            } else {
                words_from(s, i + 1, quote, cur.push(ch), acc)
            }
        } else if quote is None && is_whitespace(ch) {
            words_from(s, i + 1, quote, Seq::empty(), flush_nonempty(acc, cur))
        } else if quote is None && (ch == '>' || ch == '<') {
            let skip = i + 1 < s.len() && s[i + 1] == ch;
            words_from(
                s,
                if skip {
                    i + 2
                } else {
                    i + 1
                },
                quote,
                Seq::empty(),
                flush_nonempty(acc, cur),
            )
        } else {
            words_from(s, i + 1, quote, cur.push(ch), acc)
        }
    }
}

/// The shell words of a segment: split at unquoted whitespace and at unquoted
/// `>`, `>>`, `<`, `<<` (which are dropped), with quote characters removed.
pub open spec fn shell_words_of(s: Seq<char>) -> Seq<Seq<char>> {
    words_from(s, 0, None, Seq::empty(), Seq::empty())
}

fn shell_words(segment: &[char]) -> (r: Vec<Vec<char>>)
    ensures
        views(r@) == shell_words_of(segment@),
{
    let mut tokens: Vec<Vec<char>> = Vec::new();
    let mut current: Vec<char> = Vec::new();
    let mut quote: Option<char> = None;
    let mut i: usize = 0;
    let n = segment.len();
    assert(views(tokens@) =~= Seq::<Seq<char>>::empty());
    assert(current@ =~= Seq::<char>::empty());
    while i < n
        invariant
            n == segment@.len(),
            i <= n,
            shell_words_of(segment@) == words_from(
                segment@,
                i as int,
                quote,
                current@,
                views(tokens@),
            ),
        decreases n - i,
    {
        let ch = segment[i];
        if ch == '\'' || ch == '"' {
            if quote == Some(ch) {
                quote = None;
            } else if quote.is_none() {
                quote = Some(ch);
            } else {
                current.push(ch);
            }
            i = i + 1;
        } else if quote.is_none() && is_whitespace_exec(ch) {
            push_nonempty(&mut tokens, current);
            current = Vec::new();
            i = i + 1;
        } else if quote.is_none() && (ch == '>' || ch == '<') {
            push_nonempty(&mut tokens, current);
            current = Vec::new();
            if i + 1 < n && segment[i + 1] == ch {
                i = i + 2;
            } else {
                i = i + 1;
            }
        } else {
            current.push(ch);
            i = i + 1;
        }
    }
    push_nonempty(&mut tokens, current);
    tokens
}

fn push_nonempty(tokens: &mut Vec<Vec<char>>, current: Vec<char>)
    ensures
        views(final(tokens)@) == flush_nonempty(views(old(tokens)@), current@),
{
    if current.len() > 0 {
        let ghost before = tokens@;
        let ghost c = current@;
        tokens.push(current);
        assert(views(tokens@) =~= views(before).push(c));
    }
}

/// The scan behind `str::split_whitespace`.
pub open spec fn ws_words_from(s: Seq<char>, i: int, cur: Seq<char>, acc: Seq<Seq<char>>) -> Seq<
    Seq<char>,
>
    decreases s.len() - i,
{
    if i < 0 || i >= s.len() {
        flush_nonempty(acc, cur)
    } else if is_whitespace(s[i]) {
        ws_words_from(s, i + 1, Seq::empty(), flush_nonempty(acc, cur))
    } else {
        ws_words_from(s, i + 1, cur.push(s[i]), acc)
    }
}

/// `str::split_whitespace`: the maximal runs of non-whitespace characters.
pub open spec fn ws_words(s: Seq<char>) -> Seq<Seq<char>> {
    ws_words_from(s, 0, Seq::empty(), Seq::empty())
}

fn split_whitespace(s: &[char]) -> (r: Vec<Vec<char>>)
    ensures
        views(r@) == ws_words(s@),
{
    let mut words: Vec<Vec<char>> = Vec::new();
    let mut current: Vec<char> = Vec::new();
    let mut i: usize = 0;
    assert(views(words@) =~= Seq::<Seq<char>>::empty());
    assert(current@ =~= Seq::<char>::empty());
    while i < s.len()
        invariant
            i <= s@.len(),
            ws_words(s@) == ws_words_from(s@, i as int, current@, views(words@)),
        decreases s.len() - i,
    {
        if is_whitespace_exec(s[i]) {
            push_nonempty(&mut words, current);
            current = Vec::new();
        } else {
            current.push(s[i]);
        }
        i = i + 1;
    }
    push_nonempty(&mut words, current);
    words
}

/// Whitespace collapsed: the whitespace words joined by single spaces.
pub open spec fn collapse_whitespace(s: Seq<char>) -> Seq<char> {
    join(ws_words(s), seq![' '])
}

/// The parsed commands of some segments: each segment's first shell word is
/// the program and the rest are its arguments; segments without words are dropped.
pub open spec fn parse_commands(segments: Seq<Seq<char>>) -> Seq<CommandModel>
    decreases segments.len(),
{
    if segments.len() == 0 {
        Seq::empty()
    } else {
        let words = shell_words_of(segments.last());
        parse_commands(segments.drop_last()) + (if words.len() > 0 {
            seq![CommandModel { program: words[0], args: words.drop_first() }]
        } else {
            Seq::empty()
        })
    }
}

pub open spec fn spec_parse(s: Seq<char>) -> NormalizedModel {
    NormalizedModel {
        original: s,
        normalized: collapse_whitespace(s),
        commands: parse_commands(command_segments(s)),
        has_pipe: s.contains('|'),
        has_control_operator: contains_sub(s, "&&"@) || contains_sub(s, "||"@) || s.contains(';'),
        has_redirection: s.contains('>') || s.contains('<'),
        has_complex_syntax: contains_sub(s, "$("@) || s.contains('`') || contains_sub(s, "<("@)
            || contains_sub(s, "<<"@),
    }
}

fn strings_from_vecs(v: &Vec<Vec<char>>, from: usize) -> (r: Vec<String>)
    requires
        from <= v@.len(),
    ensures
        string_views(r@) == views(v@).subrange(from as int, v@.len() as int),
{
    let mut r: Vec<String> = Vec::new();
    let mut i: usize = from;
    while i < v.len()
        invariant
            from <= i <= v@.len(),
            r@.len() == i - from,
            string_views(r@) == views(v@).subrange(from as int, i as int),
        decreases v.len() - i,
    {
        let s = string_from_chars(v[i].as_slice());
        let ghost before = r@;
        r.push(s);
        i = i + 1;
        proof {
            assert forall|k: int| 0 <= k < i - from implies #[trigger] string_views(r@)[k] == views(
                v@,
            ).subrange(from as int, i as int)[k] by {
                if k < i - from - 1 {
                    assert(r@[k] == before[k]);
                    assert(string_views(before)[k] == views(v@).subrange(from as int, i - 1)[k]);
                }
            }
            assert(string_views(r@) =~= views(v@).subrange(from as int, i as int));
        }
    }
    r
}

impl NormalizedCommand {
    /// Normalises a command: collapses whitespace and parses its command segments.
    pub fn parse(command: &str) -> (r: Self)
        ensures
            r@ == spec_parse(command@),
    {
        let chars = str_chars(command);
        let words = split_whitespace(chars.as_slice());
        let space = vec![' '];
        let normalized_chars = join_vecs(&words, space.as_slice());
        assert(space@ =~= seq![' ']);
        let has_pipe = chars_contains_char(chars.as_slice(), '|');
        let has_control_operator = chars_contains_str(chars.as_slice(), "&&")
            || chars_contains_str(chars.as_slice(), "||") || chars_contains_char(
            chars.as_slice(),
            ';',
        );
        let has_redirection = chars_contains_char(chars.as_slice(), '>') || chars_contains_char(
            chars.as_slice(),
            '<',
        );
        let has_complex_syntax = chars_contains_str(chars.as_slice(), "$(")
            || chars_contains_char(chars.as_slice(), '`') || chars_contains_str(
            chars.as_slice(),
            "<(",
        ) || chars_contains_str(chars.as_slice(), "<<");

        let segments = split_command_segments(chars.as_slice());
        let mut commands: Vec<ParsedCommand> = Vec::new();
        let mut i: usize = 0;
        while i < segments.len()
            invariant
                i <= segments@.len(),
                views(segments@) == command_segments(command@),
                command_views(commands@) == parse_commands(views(segments@).take(i as int)),
            decreases segments.len() - i,
        {
            let tokens = shell_words(segments[i].as_slice());
            let ghost before = commands@;
            if tokens.len() > 0 {
                let program = string_from_chars(tokens[0].as_slice());
                let args = strings_from_vecs(&tokens, 1);
                commands.push(ParsedCommand { program, args });
                proof {
                    assert(views(tokens@).subrange(1, tokens@.len() as int) =~= views(
                        tokens@,
                    ).drop_first());
                }
            }
            i = i + 1;
            proof {
                let t = views(segments@).take(i as int);
                assert(t.drop_last() =~= views(segments@).take(i - 1));
                assert(t.last() == segments@[i - 1]@);
                assert(command_views(commands@) =~= parse_commands(t));
            }
        }
        assert(views(segments@).take(segments@.len() as int) =~= views(segments@));
        NormalizedCommand {
            original: String::from_str(command),
            normalized: string_from_chars(normalized_chars.as_slice()),
            commands,
            has_pipe,
            has_control_operator,
            has_redirection,
            has_complex_syntax,
        }
    }
}


// ---------------------------------------------------------------------------
// Rules.
// ---------------------------------------------------------------------------

/// The text after the last `/` (`str::rsplit('/').next()`).
pub open spec fn basename(p: Seq<char>) -> Seq<char>
    decreases p.len(),
{
    if p.len() == 0 {
        p
    } else if p.last() == '/' {
        Seq::empty()
    } else {
        basename(p.drop_last()).push(p.last())
    }
}

proof fn lemma_basename_split(p: Seq<char>, k: int)
    requires
        0 <= k <= p.len(),
        forall|j: int| k <= j < p.len() ==> p[j] != '/',
    ensures
        basename(p) == if k > 0 && p[k - 1] == '/' {
            p.subrange(k, p.len() as int)
        } else {
            basename(p.subrange(0, k)) + p.subrange(k, p.len() as int)
        },
    decreases p.len() - k,
{
    if k == p.len() {
        assert(p.subrange(0, k) =~= p);
        assert(p.subrange(k, p.len() as int) =~= Seq::<char>::empty());
        if k > 0 && p[k - 1] == '/' {
            assert(basename(p) == Seq::<char>::empty());
        }
        assert(basename(p.subrange(0, k)) + Seq::<char>::empty() =~= basename(p.subrange(0, k)));
    } else {
        lemma_basename_split(p.drop_last(), k);
        assert(p.drop_last().subrange(0, k) =~= p.subrange(0, k));
        assert(p.drop_last().subrange(k, p.len() - 1) =~= p.subrange(k, p.len() - 1));
        assert(p.subrange(k, p.len() as int) =~= p.subrange(k, p.len() - 1).push(p.last()));
        if k > 0 && p[k - 1] == '/' {
        } else {
            assert(basename(p.subrange(0, k)) + p.subrange(k, p.len() as int) =~= (basename(
                p.subrange(0, k),
            ) + p.subrange(k, p.len() - 1)).push(p.last()));
        }
    }
}

fn basename_chars(p: &[char]) -> (r: Vec<char>)
    ensures
        r@ == basename(p@),
{
    let mut k: usize = p.len();
    while k > 0 && p[k - 1] != '/'
        invariant
            k <= p@.len(),
            forall|j: int| k <= j < p@.len() ==> p@[j] != '/',
        decreases k,
    {
        k = k - 1;
    }
    proof {
        lemma_basename_split(p@, k as int);
        if k == 0 {
            assert(p@.subrange(0, 0) =~= Seq::<char>::empty());
            assert(Seq::<char>::empty() + p@.subrange(0, p@.len() as int) =~= p@.subrange(
                0,
                p@.len() as int,
            ));
        }
    }
    slice_vec(p, k, p.len())
}

fn basename_of(program: &String) -> (r: Vec<char>)
    ensures
        r@ == basename(program@),
{
    let v = str_chars(program.as_str());
    basename_chars(v.as_slice())
}

pub open spec fn is_dangerous_program(program: Seq<char>) -> bool {
    let b = basename(program);
    ||| b == "rm"@
    ||| b == "rmdir"@
    ||| b == "truncate"@
    ||| b == "dd"@
    ||| b == "chmod"@
    ||| b == "chown"@
    ||| b == "chgrp"@
    ||| b == "sudo"@
    ||| b == "su"@
}

fn is_dangerous_program_exec(program: &String) -> (r: bool)
    ensures
        r == is_dangerous_program(program@),
{
    let b = basename_of(program);
    let b = b.as_slice();
    chars_eq_str(b, "rm") || chars_eq_str(b, "rmdir") || chars_eq_str(b, "truncate")
        || chars_eq_str(b, "dd") || chars_eq_str(b, "chmod") || chars_eq_str(b, "chown")
        || chars_eq_str(b, "chgrp") || chars_eq_str(b, "sudo") || chars_eq_str(b, "su")
}

fn string_is(s: &String, lit: &str) -> (r: bool)
    ensures
        r == (s@ == lit@),
{
    str_eq(s.as_str(), lit)
}

fn string_starts_with(s: &String, lit: &str) -> (r: bool)
    ensures
        r == starts_with(s@, lit@),
{
    let v = str_chars(s.as_str());
    chars_starts_with_str(v.as_slice(), lit)
}

fn string_contains(s: &String, lit: &str) -> (r: bool)
    ensures
        r == contains_sub(s@, lit@),
{
    let v = str_chars(s.as_str());
    chars_contains_str(v.as_slice(), lit)
}

pub open spec fn is_high_risk_git(c: CommandModel) -> bool {
    let a = c.args;
    &&& basename(c.program) == "git"@
    &&& {
        ||| (a.len() >= 2 && a[0] == "reset"@ && a[1] == "--hard"@)
        ||| (a.len() >= 1 && a[0] == "clean"@)
        ||| (a.len() >= 2 && a[0] == "checkout"@ && a[1] == "--"@)
        ||| (a.len() >= 2 && a[0] == "restore"@ && starts_with(a[1], "--source"@))
    }
}

fn is_high_risk_git_exec(command: &ParsedCommand) -> (r: bool)
    ensures
        r == is_high_risk_git(command@),
{
    let b = basename_of(&command.program);
    if !chars_eq_str(b.as_slice(), "git") {
        return false;
    }
    let a = &command.args;
    proof {
        assert(command@.args.len() == a@.len());
        assert(forall|i: int| 0 <= i < a@.len() ==> #[trigger] command@.args[i] == a@[i]@);
    }
    (a.len() >= 2 && string_is(&a[0], "reset") && string_is(&a[1], "--hard")) || (a.len() >= 1
        && string_is(&a[0], "clean")) || (a.len() >= 2 && string_is(&a[0], "checkout") && string_is(
        &a[1],
        "--",
    )) || (a.len() >= 2 && string_is(&a[0], "restore") && string_starts_with(&a[1], "--source"))
}

pub open spec fn is_protected_path(a: Seq<char>) -> bool {
    ||| a == "/"@
    ||| a == "~"@
    ||| a == "$HOME"@
    ||| a == "/System"@
    ||| a == "/bin"@
    ||| a == "/usr"@
    ||| a == "/etc"@
}

pub open spec fn deletes_protected(c: CommandModel) -> bool {
    &&& basename(c.program) == "rm"@
    &&& exists|i: int|
        0 <= i < c.args.len() && ((#[trigger] c.args[i]).contains('r') || c.args[i].contains('f'))
    &&& exists|i: int| 0 <= i < c.args.len() && is_protected_path(#[trigger] c.args[i])
}

pub open spec fn deletes_protected_path(n: NormalizedModel) -> bool {
    exists|i: int| 0 <= i < n.commands.len() && deletes_protected(#[trigger] n.commands[i])
}

fn deletes_protected_exec(command: &ParsedCommand) -> (r: bool)
    ensures
        r == deletes_protected(command@),
{
    let b = basename_of(&command.program);
    if !chars_eq_str(b.as_slice(), "rm") {
        return false;
    }
    let a = &command.args;
    let ghost m = command@;
    assert(m.args.len() == a@.len());
    let mut has_flag = false;
    let mut has_protected = false;
    let mut i: usize = 0;
    while i < a.len()
        invariant
            i <= a@.len(),
            m == command@,
            m.args.len() == a@.len(),
            forall|k: int| 0 <= k < a@.len() ==> #[trigger] m.args[k] == a@[k]@,
            has_flag == exists|k: int|
                0 <= k < i && ((#[trigger] m.args[k]).contains('r') || m.args[k].contains('f')),
            has_protected == exists|k: int| 0 <= k < i && is_protected_path(#[trigger] m.args[k]),
        decreases a.len() - i,
    {
        let v = str_chars(a[i].as_str());
        let f = chars_contains_char(v.as_slice(), 'r') || chars_contains_char(v.as_slice(), 'f');
        let p = chars_eq_str(v.as_slice(), "/") || chars_eq_str(v.as_slice(), "~")
            || chars_eq_str(v.as_slice(), "$HOME") || chars_eq_str(v.as_slice(), "/System")
            || chars_eq_str(v.as_slice(), "/bin") || chars_eq_str(v.as_slice(), "/usr")
            || chars_eq_str(v.as_slice(), "/etc");
        assert(m.args[i as int] == v@);
        has_flag = has_flag || f;
        has_protected = has_protected || p;
        i = i + 1;
    }
    has_flag && has_protected
}

pub open spec fn is_fetch_program(p: Seq<char>) -> bool {
    basename(p) == "curl"@ || basename(p) == "wget"@
}

pub open spec fn is_shell_program(p: Seq<char>) -> bool {
    basename(p) == "sh"@ || basename(p) == "bash"@ || basename(p) == "zsh"@
}

pub open spec fn remote_script_pipe(n: NormalizedModel) -> bool {
    &&& n.has_pipe
    &&& exists|i: int| 0 <= i < n.commands.len() && is_fetch_program(#[trigger] n.commands[i].program)
    &&& exists|i: int| 0 <= i < n.commands.len() && is_shell_program(#[trigger] n.commands[i].program)
}

/// Whitespace removed (`str::replace(char::is_whitespace, "")`).
pub open spec fn strip_whitespace(s: Seq<char>) -> Seq<char>
    decreases s.len(),
{
    if s.len() == 0 {
        s
    } else if is_whitespace(s.last()) {
        strip_whitespace(s.drop_last())
    } else {
        strip_whitespace(s.drop_last()).push(s.last())
    }
}

fn strip_whitespace_exec(s: &[char]) -> (r: Vec<char>)
    ensures
        r@ == strip_whitespace(s@),
{
    let mut r: Vec<char> = Vec::new();
    let mut i: usize = 0;
    while i < s.len()
        invariant
            i <= s@.len(),
            r@ == strip_whitespace(s@.take(i as int)),
        decreases s.len() - i,
    {
        if !is_whitespace_exec(s[i]) {
            r.push(s[i]);
        }
        i = i + 1;
        proof {
            let t = s@.take(i as int);
            assert(t.drop_last() =~= s@.take(i - 1));
            assert(t.last() == s@[i - 1]);
        }
    }
    assert(s@.take(s@.len() as int) =~= s@);
    r
}

pub open spec fn looks_like_fork_bomb(command: Seq<char>) -> bool {
    let compact = strip_whitespace(command);
    contains_sub(compact, ":(){:|:&};:"@) || contains_sub(compact, ":(){:|:&};"@)
}

pub open spec fn is_sensitive_arg(a: Seq<char>) -> bool {
    ||| contains_sub(a, ".ssh/config"@)
    ||| contains_sub(a, ".gitconfig"@)
    ||| contains_sub(a, ".bashrc"@)
    ||| contains_sub(a, ".zshrc"@)
    ||| starts_with(a, "/etc/"@)
    ||| starts_with(a, "/System/"@)
}

pub open spec fn touches_sensitive_path(c: CommandModel) -> bool {
    exists|i: int| 0 <= i < c.args.len() && is_sensitive_arg(#[trigger] c.args[i])
}

fn touches_sensitive_path_exec(command: &ParsedCommand) -> (r: bool)
    ensures
        r == touches_sensitive_path(command@),
{
    let a = &command.args;
    let ghost m = command@;
    assert(m.args.len() == a@.len());
    let mut i: usize = 0;
    while i < a.len()
        invariant
            i <= a@.len(),
            m == command@,
            m.args.len() == a@.len(),
            forall|k: int| 0 <= k < a@.len() ==> #[trigger] m.args[k] == a@[k]@,
            forall|k: int| 0 <= k < i ==> !is_sensitive_arg(#[trigger] m.args[k]),
        decreases a.len() - i,
    {
        let v = str_chars(a[i].as_str());
        let v = v.as_slice();
        assert(m.args[i as int] == v@);
        if chars_contains_str(v, ".ssh/config") || chars_contains_str(v, ".gitconfig")
            || chars_contains_str(v, ".bashrc") || chars_contains_str(v, ".zshrc")
            || chars_starts_with_str(v, "/etc/") || chars_starts_with_str(v, "/System/") {
            return true;
        }
        i = i + 1;
    }
    false
}


pub open spec fn is_read_only_tool(p: Seq<char>) -> bool {
    ||| p == "pwd"@
    ||| p == "ls"@
    ||| p == "cat"@
    ||| p == "head"@
    ||| p == "tail"@
    ||| p == "rg"@
    ||| p == "grep"@
    ||| p == "wc"@
}

pub open spec fn find_is_read_only(args: Seq<Seq<char>>) -> bool {
    !(exists|i: int| 0 <= i < args.len() && (#[trigger] args[i] == "-delete"@ || args[i] == "-exec"@))
}

pub open spec fn is_git_read_subcommand(a: Seq<char>) -> bool {
    a == "status"@ || a == "diff"@ || a == "log"@ || a == "show"@
}

pub open spec fn is_cargo_check_subcommand(a: Seq<char>) -> bool {
    a == "metadata"@ || a == "check"@ || a == "test"@
}

pub open spec fn is_node_check_subcommand(a: Seq<char>) -> bool {
    a == "test"@ || a == "lint"@
}

/// The policy candidate of a command that a local rule considers read-only or a check/test run.
pub open spec fn low_risk_candidate(c: CommandModel) -> Option<CandidateModel> {
    let p = basename(c.program);
    let a = c.args;
    if is_read_only_tool(p) {
        Some(CandidateModel::ToolFamily { program: p })
    } else if p == "find"@ && find_is_read_only(a) {
        Some(CandidateModel::ToolFamily { program: p })
    } else if p == "sed"@ && a.len() > 0 && a[0] == "-n"@ {
        Some(CandidateModel::ArgvPrefix { program: p, args: seq!["-n"@] })
    } else if p == "git"@ && a.len() > 0 && is_git_read_subcommand(a[0]) {
        Some(CandidateModel::ArgvPrefix { program: p, args: seq![a[0]] })
    } else if p == "git"@ && a.len() == 2 && a[0] == "branch"@ && a[1] == "--show-current"@ {
        Some(CandidateModel::ArgvExact { program: p, args: a })
    } else if p == "cargo"@ && a.len() > 0 && is_cargo_check_subcommand(a[0]) {
        Some(CandidateModel::ArgvPrefix { program: p, args: seq![a[0]] })
    } else if (p == "npm"@ || p == "pnpm"@) && a.len() > 0 && is_node_check_subcommand(a[0]) {
        Some(CandidateModel::ArgvPrefix { program: p, args: seq![a[0]] })
    } else {
        None
    }
}

fn clone_strings(v: &Vec<String>) -> (r: Vec<String>)
    ensures
        string_views(r@) == string_views(v@),
{
    let mut r: Vec<String> = Vec::new();
    let mut i: usize = 0;
    while i < v.len()
        invariant
            i <= v@.len(),
            r@.len() == i,
            forall|k: int| 0 <= k < i ==> #[trigger] r@[k]@ == v@[k]@,
        decreases v.len() - i,
    {
        r.push(v[i].clone());
        i = i + 1;
    }
    assert(string_views(r@) =~= string_views(v@));
    r
}

fn one_string(s: String) -> (r: Vec<String>)
    ensures
        string_views(r@) == seq![s@],
{
    let mut r: Vec<String> = Vec::new();
    r.push(s);
    assert(string_views(r@) =~= seq![s@]);
    r
}

fn low_risk_candidate_exec(command: &ParsedCommand) -> (r: Option<PolicyCandidate>)
    ensures
        candidate_view(r) == low_risk_candidate(command@),
{
    let b = basename_of(&command.program);
    let p = b.as_slice();
    let a = &command.args;
    let ghost m = command@;
    assert(m.args.len() == a@.len());
    assert(forall|k: int| 0 <= k < a@.len() ==> #[trigger] m.args[k] == a@[k]@);
    if chars_eq_str(p, "pwd") || chars_eq_str(p, "ls") || chars_eq_str(p, "cat") || chars_eq_str(
        p,
        "head",
    ) || chars_eq_str(p, "tail") || chars_eq_str(p, "rg") || chars_eq_str(p, "grep")
        || chars_eq_str(p, "wc") {
        return Some(PolicyCandidate::ToolFamily { program: string_from_chars(p) });
    }
    if chars_eq_str(p, "find") {
        let mut destructive = false;
        let mut i: usize = 0;
        while i < a.len()
            invariant
                i <= a@.len(),
                m.args.len() == a@.len(),
                forall|k: int| 0 <= k < a@.len() ==> #[trigger] m.args[k] == a@[k]@,
                destructive == exists|k: int|
                    0 <= k < i && (#[trigger] m.args[k] == "-delete"@ || m.args[k] == "-exec"@),
            decreases a.len() - i,
        {
            let d = string_is(&a[i], "-delete") || string_is(&a[i], "-exec");
            assert(m.args[i as int] == a@[i as int]@);
            destructive = destructive || d;
            i = i + 1;
        }
        if !destructive {
            return Some(PolicyCandidate::ToolFamily { program: string_from_chars(p) });
        }
    }
    if chars_eq_str(p, "sed") && a.len() > 0 && string_is(&a[0], "-n") {
        let args = one_string(String::from_str("-n"));
        return Some(PolicyCandidate::ArgvPrefix { program: string_from_chars(p), args });
    }
    if chars_eq_str(p, "git") {
        if a.len() > 0 && (string_is(&a[0], "status") || string_is(&a[0], "diff") || string_is(
            &a[0],
            "log",
        ) || string_is(&a[0], "show")) {
            let args = one_string(a[0].clone());
            return Some(PolicyCandidate::ArgvPrefix { program: string_from_chars(p), args });
        }
        if a.len() == 2 && string_is(&a[0], "branch") && string_is(&a[1], "--show-current") {
            let args = clone_strings(a);
            return Some(PolicyCandidate::ArgvExact { program: string_from_chars(p), args });
        }
    }
    if chars_eq_str(p, "cargo") && a.len() > 0 && (string_is(&a[0], "metadata") || string_is(
        &a[0],
        "check",
    ) || string_is(&a[0], "test")) {
        let args = one_string(a[0].clone());
        return Some(PolicyCandidate::ArgvPrefix { program: string_from_chars(p), args });
    }
    if (chars_eq_str(p, "npm") || chars_eq_str(p, "pnpm")) && a.len() > 0 && (string_is(
        &a[0],
        "test",
    ) || string_is(&a[0], "lint")) {
        let args = one_string(a[0].clone());
        return Some(PolicyCandidate::ArgvPrefix { program: string_from_chars(p), args });
    }
    None
}

// ---------------------------------------------------------------------------
// Decisions.
// ---------------------------------------------------------------------------

/// The outcome of classifying one command.  `confidence_percent` is the rule
/// confidence in percent: 100 for low and blocked, 95 for high, 70 for medium.
#[derive(Debug, Clone)]
pub struct BashRiskDecision {
    pub risk: BashRiskLevel,
    pub confidence_percent: u32,
    pub reason: String,
    pub signals: Vec<BashRiskSignal>,
    pub policy_candidate: Option<PolicyCandidate>,
    pub normalized: NormalizedCommand,
}

pub struct DecisionModel {
    pub risk: BashRiskLevel,
    pub reason: Seq<char>,
    pub signals: Seq<SignalModel>,
    pub candidate: Option<CandidateModel>,
}

pub open spec fn signal_views(v: Seq<BashRiskSignal>) -> Seq<SignalModel> {
    v.map_values(|s: BashRiskSignal| s@)
}

pub open spec fn confidence_percent(risk: BashRiskLevel) -> u32 {
    match risk {
        BashRiskLevel::Low | BashRiskLevel::Blocked => 100,
        BashRiskLevel::High => 95,
        BashRiskLevel::Medium => 70,
    }
}

pub open spec fn model_of(d: BashRiskDecision) -> DecisionModel {
    DecisionModel {
        risk: d.risk,
        reason: d.reason@,
        signals: signal_views(d.signals@),
        candidate: candidate_view(d.policy_candidate),
    }
}

pub open spec fn decision_model(
    risk: BashRiskLevel,
    reason: Seq<char>,
    signals: Seq<SignalModel>,
    candidate: Option<CandidateModel>,
) -> DecisionModel {
    DecisionModel { risk, reason, signals, candidate }
}

/// The high-risk signals of one command, in rule order.
pub open spec fn command_signals(c: CommandModel) -> Seq<SignalModel> {
    (if is_dangerous_program(c.program) {
        seq![sig("dangerous_program"@, c.program, BashRiskLevel::High)]
    } else {
        Seq::empty()
    }) + (if is_high_risk_git(c) {
        seq![sig("destructive_git"@, "git "@ + join(c.args, " "@), BashRiskLevel::High)]
    } else {
        Seq::empty()
    }) + (if touches_sensitive_path(c) {
        seq![sig("sensitive_path"@, join(c.args, " "@), BashRiskLevel::High)]
    } else {
        Seq::empty()
    })
}

pub open spec fn all_command_signals(cs: Seq<CommandModel>) -> Seq<SignalModel>
    decreases cs.len(),
{
    if cs.len() == 0 {
        Seq::empty()
    } else {
        all_command_signals(cs.drop_last()) + command_signals(cs.last())
    }
}

pub open spec fn high_signals(n: NormalizedModel) -> Seq<SignalModel> {
    (if remote_script_pipe(n) {
        seq![sig("remote_script_execution"@, "curl/wget piped to shell"@, BashRiskLevel::High)]
    } else {
        Seq::empty()
    }) + all_command_signals(n.commands)
}

pub open spec fn medium_signals(n: NormalizedModel) -> Seq<SignalModel> {
    (if n.has_complex_syntax {
        seq![
            sig(
                "complex_shell_syntax"@,
                "command substitution or heredoc"@,
                BashRiskLevel::Medium,
            ),
        ]
    } else {
        Seq::empty()
    }) + (if n.has_control_operator {
        seq![sig("control_operator"@, "&&, ||, or ;"@, BashRiskLevel::Medium)]
    } else {
        Seq::empty()
    }) + (if n.has_redirection {
        seq![sig("redirection"@, "shell redirection"@, BashRiskLevel::Medium)]
    } else {
        Seq::empty()
    })
}

/// The local rules, in the order in which they are tried.
pub open spec fn spec_classify(n: NormalizedModel) -> DecisionModel {
    if n.original.contains('\0') {
        decision_model(
            BashRiskLevel::Blocked,
            "Command contains a NUL byte."@,
            seq![sig("invalid_input"@, "NUL byte"@, BashRiskLevel::Blocked)],
            None,
        )
    } else if looks_like_fork_bomb(n.original) {
        decision_model(
            BashRiskLevel::Blocked,
            "Command resembles a fork bomb."@,
            seq![sig("resource_exhaustion"@, "fork bomb"@, BashRiskLevel::Blocked)],
            None,
        )
    } else if deletes_protected_path(n) {
        decision_model(
            BashRiskLevel::Blocked,
            "Command attempts to delete a protected path."@,
            seq![sig("protected_path_delete"@, "system or home root"@, BashRiskLevel::Blocked)],
            None,
        )
    } else if high_signals(n).len() > 0 {
        decision_model(
            BashRiskLevel::High,
            "Command matches a high-risk local rule."@,
            high_signals(n),
            None,
        )
    } else if medium_signals(n).len() > 0 {
        decision_model(
            BashRiskLevel::Medium,
            "Command uses shell features that require confirmation."@,
            medium_signals(n),
            Some(CandidateModel::ExactNormalizedCommand { command: n.normalized }),
        )
    } else if n.commands.len() == 1 && low_risk_candidate(n.commands[0]) is Some {
        decision_model(
            BashRiskLevel::Low,
            "Command matches a read-only or check/test local rule."@,
            seq![sig("low_risk_program"@, n.commands[0].program, BashRiskLevel::Low)],
            low_risk_candidate(n.commands[0]),
        )
    } else {
        decision_model(
            BashRiskLevel::Medium,
            "Command is not covered by local low-risk rules."@,
            seq![sig("unknown_command"@, n.normalized, BashRiskLevel::Medium)],
            Some(CandidateModel::ExactNormalizedCommand { command: n.normalized }),
        )
    }
}

proof fn lemma_command_signals_high(cs: Seq<CommandModel>)
    ensures
        forall|i: int|
            0 <= i < all_command_signals(cs).len() ==> (#[trigger] all_command_signals(cs)[i]).severity
                == BashRiskLevel::High,
    decreases cs.len(),
{
    if cs.len() > 0 {
        lemma_command_signals_high(cs.drop_last());
        let a = all_command_signals(cs.drop_last());
        let c = cs.last();
        let s1: Seq<SignalModel> = if is_dangerous_program(c.program) {
            seq![sig("dangerous_program"@, c.program, BashRiskLevel::High)]
        } else {
            Seq::empty()
        };
        let s2: Seq<SignalModel> = if is_high_risk_git(c) {
            seq![sig("destructive_git"@, "git "@ + join(c.args, " "@), BashRiskLevel::High)]
        } else {
            Seq::empty()
        };
        let s3: Seq<SignalModel> = if touches_sensitive_path(c) {
            seq![sig("sensitive_path"@, join(c.args, " "@), BashRiskLevel::High)]
        } else {
            Seq::empty()
        };
        assert(command_signals(c) == s1 + s2 + s3);
        let b = command_signals(c);
        assert forall|j: int| 0 <= j < b.len() implies (#[trigger] b[j]).severity
            == BashRiskLevel::High by {
            if j < s1.len() {
                assert(b[j] == s1[j]);
            } else if j < s1.len() + s2.len() {
                assert(b[j] == s2[j - s1.len()]);
            } else {
                assert(b[j] == s3[j - s1.len() - s2.len()]);
            }
        }
        assert(all_command_signals(cs) == a + b);
        assert forall|i: int|
            0 <= i < all_command_signals(cs).len() implies (#[trigger] all_command_signals(
            cs,
        )[i]).severity == BashRiskLevel::High by {
            if i < a.len() {
                assert(all_command_signals(cs)[i] == a[i]);
            } else {
                assert(all_command_signals(cs)[i] == b[i - a.len()]);
            }
        }
    }
}

/// Every decision of the local rules has at least one signal, each signal
/// carries the decision's risk, and a policy candidate is offered exactly
/// for low- and medium-risk commands.
pub proof fn lemma_classify_shape(n: NormalizedModel)
    ensures
        spec_classify(n).signals.len() > 0,
        forall|i: int|
            0 <= i < spec_classify(n).signals.len() ==> (#[trigger] spec_classify(n).signals[i]).severity
                == spec_classify(n).risk,
        (spec_classify(n).candidate is Some) <==> (spec_classify(n).risk == BashRiskLevel::Low
            || spec_classify(n).risk == BashRiskLevel::Medium),
{
    let d = spec_classify(n);
    if !n.original.contains('\0') && !looks_like_fork_bomb(n.original) && !deletes_protected_path(n) {
        if high_signals(n).len() > 0 {
            lemma_command_signals_high(n.commands);
            let r: Seq<SignalModel> = if remote_script_pipe(n) {
                seq![sig("remote_script_execution"@, "curl/wget piped to shell"@, BashRiskLevel::High)]
            } else {
                Seq::empty()
            };
            let a = all_command_signals(n.commands);
            assert(high_signals(n) == r + a);
            assert forall|i: int| 0 <= i < d.signals.len() implies (#[trigger] d.signals[i]).severity
                == d.risk by {
                if i < r.len() {
                    assert(d.signals[i] == r[i]);
                } else {
                    assert(d.signals[i] == a[i - r.len()]);
                }
            }
        } else if medium_signals(n).len() > 0 {
            let m1: Seq<SignalModel> = if n.has_complex_syntax {
                seq![sig("complex_shell_syntax"@, "command substitution or heredoc"@, BashRiskLevel::Medium)]
            } else {
                Seq::empty()
            };
            let m2: Seq<SignalModel> = if n.has_control_operator {
                seq![sig("control_operator"@, "&&, ||, or ;"@, BashRiskLevel::Medium)]
            } else {
                Seq::empty()
            };
            let m3: Seq<SignalModel> = if n.has_redirection {
                seq![sig("redirection"@, "shell redirection"@, BashRiskLevel::Medium)]
            } else {
                Seq::empty()
            };
            assert(medium_signals(n) == m1 + m2 + m3);
            assert forall|i: int| 0 <= i < d.signals.len() implies (#[trigger] d.signals[i]).severity
                == d.risk by {
                if i < m1.len() {
                    assert(d.signals[i] == m1[i]);
                } else if i < m1.len() + m2.len() {
                    assert(d.signals[i] == m2[i - m1.len()]);
                } else {
                    assert(d.signals[i] == m3[i - m1.len() - m2.len()]);
                }
            }
        }
    }
}

fn decision(
    risk: BashRiskLevel,
    reason: &str,
    signals: Vec<BashRiskSignal>,
    policy_candidate: Option<PolicyCandidate>,
    normalized: NormalizedCommand,
) -> (d: BashRiskDecision)
    ensures
        model_of(d) == decision_model(
            risk,
            reason@,
            signal_views(signals@),
            candidate_view(policy_candidate),
        ),
        d.confidence_percent == confidence_percent(risk),
        d.normalized == normalized,
{
    let confidence_percent = match risk {
        BashRiskLevel::Low | BashRiskLevel::Blocked => 100,
        BashRiskLevel::High => 95,
        BashRiskLevel::Medium => 70,
    };
    BashRiskDecision {
        risk,
        confidence_percent,
        reason: String::from_str(reason),
        signals,
        policy_candidate,
        normalized,
    }
}

fn push_signal(signals: &mut Vec<BashRiskSignal>, s: BashRiskSignal)
    ensures
        signal_views(final(signals)@) == signal_views(old(signals)@).push(s@),
{
    let ghost before = signals@;
    let ghost v = s@;
    signals.push(s);
    assert(signal_views(signals@) =~= signal_views(before).push(v));
}

fn single_signal(s: BashRiskSignal) -> (r: Vec<BashRiskSignal>)
    ensures
        signal_views(r@) == seq![s@],
{
    let mut r: Vec<BashRiskSignal> = Vec::new();
    assert(signal_views(r@) =~= Seq::<SignalModel>::empty());
    push_signal(&mut r, s);
    r
}

fn join_args_with_space(args: &Vec<String>) -> (r: String)
    ensures
        r@ == join(string_views(args@), " "@),
{
    join_strings(args, " ")
}

fn command_signals_exec(command: &ParsedCommand, signals: &mut Vec<BashRiskSignal>)
    ensures
        signal_views(final(signals)@) == signal_views(old(signals)@) + command_signals(command@),
{
    let ghost start = signal_views(signals@);
    if is_dangerous_program_exec(&command.program) {
        push_signal(
            signals,
            BashRiskSignal::new("dangerous_program", command.program.clone(), BashRiskLevel::High),
        );
    }
    let ghost s1 = signal_views(signals@);
    if is_high_risk_git_exec(command) {
        let joined = join_args_with_space(&command.args);
        let mut value = String::from_str("git ");
        value.append(joined.as_str());
        push_signal(signals, BashRiskSignal::new("destructive_git", value, BashRiskLevel::High));
    }
    let ghost s2 = signal_views(signals@);
    if touches_sensitive_path_exec(command) {
        let joined = join_args_with_space(&command.args);
        push_signal(signals, BashRiskSignal::new("sensitive_path", joined, BashRiskLevel::High));
    }
    assert(signal_views(signals@) =~= start + command_signals(command@));
}

fn looks_like_fork_bomb_exec(command: &String) -> (r: bool)
    ensures
        r == looks_like_fork_bomb(command@),
{
    let v = str_chars(command.as_str());
    let compact = strip_whitespace_exec(v.as_slice());
    chars_contains_str(compact.as_slice(), ":(){:|:&};:") || chars_contains_str(
        compact.as_slice(),
        ":(){:|:&};",
    )
}

fn deletes_protected_path_exec(n: &NormalizedCommand) -> (r: bool)
    ensures
        r == deletes_protected_path(n@),
{
    let mut i: usize = 0;
    while i < n.commands.len()
        invariant
            i <= n.commands@.len(),
            forall|k: int| 0 <= k < i ==> !deletes_protected(#[trigger] n@.commands[k]),
        decreases n.commands.len() - i,
    {
        if deletes_protected_exec(&n.commands[i]) {
            assert(n@.commands[i as int] == n.commands@[i as int]@);
            return true;
        }
        assert(n@.commands[i as int] == n.commands@[i as int]@);
        i = i + 1;
    }
    false
}

fn remote_script_pipe_exec(n: &NormalizedCommand) -> (r: bool)
    ensures
        r == remote_script_pipe(n@),
{
    if !n.has_pipe {
        return false;
    }
    let mut has_fetch = false;
    let mut has_shell = false;
    let mut i: usize = 0;
    while i < n.commands.len()
        invariant
            i <= n.commands@.len(),
            has_fetch == exists|k: int|
                0 <= k < i && is_fetch_program(#[trigger] n@.commands[k].program),
            has_shell == exists|k: int|
                0 <= k < i && is_shell_program(#[trigger] n@.commands[k].program),
        decreases n.commands.len() - i,
    {
        let b = basename_of(&n.commands[i].program);
        let b = b.as_slice();
        assert(n@.commands[i as int] == n.commands@[i as int]@);
        let f = chars_eq_str(b, "curl") || chars_eq_str(b, "wget");
        let s = chars_eq_str(b, "sh") || chars_eq_str(b, "bash") || chars_eq_str(b, "zsh");
        assert(n@.commands[i as int].program == n.commands@[i as int].program@);
        assert(is_fetch_program(n@.commands[i as int].program) == f);
        assert(is_shell_program(n@.commands[i as int].program) == s);
        has_fetch = has_fetch || f;
        has_shell = has_shell || s;
        i = i + 1;
    }
    has_fetch && has_shell
}

#[derive(Debug, Default)]
pub struct BashRiskAssessor;

impl BashRiskAssessor {
    pub fn new() -> (r: Self) {
        BashRiskAssessor
    }

    /// Classifies a command by the local rules.
    pub fn classify(&self, request: BashRiskRequest) -> (d: BashRiskDecision)
        ensures
            d.normalized@ == spec_parse(request.command@),
            model_of(d) == spec_classify(spec_parse(request.command@)),
            d.confidence_percent == confidence_percent(d.risk),
    {
        let normalized = NormalizedCommand::parse(request.command.as_str());
        classify_normalized(normalized)
    }
}

/// Applies the local rules to a normalised command.
pub fn classify_normalized(normalized: NormalizedCommand) -> (d: BashRiskDecision)
    ensures
        d.normalized == normalized,
        model_of(d) == spec_classify(normalized@),
        d.confidence_percent == confidence_percent(d.risk),
{
    let ghost n = normalized@;
    let original = str_chars(normalized.original.as_str());
    if chars_contains_char(original.as_slice(), '\0') {
        let signals = single_signal(
            BashRiskSignal::new("invalid_input", String::from_str("NUL byte"), BashRiskLevel::Blocked),
        );
        return decision(
            BashRiskLevel::Blocked,
            "Command contains a NUL byte.",
            signals,
            None,
            normalized,
        );
    }
    if looks_like_fork_bomb_exec(&normalized.original) {
        let signals = single_signal(
            BashRiskSignal::new(
                "resource_exhaustion",
                String::from_str("fork bomb"),
                BashRiskLevel::Blocked,
            ),
        );
        return decision(
            BashRiskLevel::Blocked,
            "Command resembles a fork bomb.",
            signals,
            None,
            normalized,
        );
    }
    if deletes_protected_path_exec(&normalized) {
        let signals = single_signal(
            BashRiskSignal::new(
                "protected_path_delete",
                String::from_str("system or home root"),
                BashRiskLevel::Blocked,
            ),
        );
        return decision(
            BashRiskLevel::Blocked,
            "Command attempts to delete a protected path.",
            signals,
            None,
            normalized,
        );
    }
    let mut signals: Vec<BashRiskSignal> = Vec::new();
    assert(signal_views(signals@) =~= Seq::<SignalModel>::empty());
    if remote_script_pipe_exec(&normalized) {
        push_signal(
            &mut signals,
            BashRiskSignal::new(
                "remote_script_execution",
                String::from_str("curl/wget piped to shell"),
                BashRiskLevel::High,
            ),
        );
    }
    let ghost remote = signal_views(signals@);
    let mut i: usize = 0;
    while i < normalized.commands.len()
        invariant
            i <= normalized.commands@.len(),
            n == normalized@,
            signal_views(signals@) == remote + all_command_signals(n.commands.take(i as int)),
        decreases normalized.commands.len() - i,
    {
        command_signals_exec(&normalized.commands[i], &mut signals);
        i = i + 1;
        proof {
            let t = n.commands.take(i as int);
            assert(t.drop_last() =~= n.commands.take(i - 1));
            assert(t.last() == normalized.commands@[i - 1]@);
            assert(signal_views(signals@) =~= remote + all_command_signals(t));
        }
    }
    assert(n.commands.take(n.commands.len() as int) =~= n.commands);
    assert(signal_views(signals@) == high_signals(n));
    if signals.len() > 0 {
        return decision(
            BashRiskLevel::High,
            "Command matches a high-risk local rule.",
            signals,
            None,
            normalized,
        );
    }
    if normalized.has_complex_syntax {
        push_signal(
            &mut signals,
            BashRiskSignal::new(
                "complex_shell_syntax",
                String::from_str("command substitution or heredoc"),
                BashRiskLevel::Medium,
            ),
        );
    }
    if normalized.has_control_operator {
        push_signal(
            &mut signals,
            BashRiskSignal::new(
                "control_operator",
                String::from_str("&&, ||, or ;"),
                BashRiskLevel::Medium,
            ),
        );
    }
    if normalized.has_redirection {
        push_signal(
            &mut signals,
            BashRiskSignal::new(
                "redirection",
                String::from_str("shell redirection"),
                BashRiskLevel::Medium,
            ),
        );
    }
    assert(signal_views(signals@) =~= medium_signals(n));
    if signals.len() > 0 {
        let candidate = PolicyCandidate::ExactNormalizedCommand {
            command: normalized.normalized.clone(),
        };
        return decision(
            BashRiskLevel::Medium,
            "Command uses shell features that require confirmation.",
            signals,
            Some(candidate),
            normalized,
        );
    }
    if normalized.commands.len() == 1 {
        let candidate = low_risk_candidate_exec(&normalized.commands[0]);
        assert(n.commands[0] == normalized.commands@[0]@);
        if candidate.is_some() {
            let signals = single_signal(
                BashRiskSignal::new(
                    "low_risk_program",
                    normalized.commands[0].program.clone(),
                    BashRiskLevel::Low,
                ),
            );
            return decision(
                BashRiskLevel::Low,
                "Command matches a read-only or check/test local rule.",
                signals,
                candidate,
                normalized,
            );
        }
    }
    let signals = single_signal(
        BashRiskSignal::new("unknown_command", normalized.normalized.clone(), BashRiskLevel::Medium),
    );
    let candidate = PolicyCandidate::ExactNormalizedCommand {
        command: normalized.normalized.clone(),
    };
    decision(
        BashRiskLevel::Medium,
        "Command is not covered by local low-risk rules.",
        signals,
        Some(candidate),
        normalized,
    )
}

/// A `find` that deletes or runs commands (`-delete`, `-exec`) is not a
/// read-only command: no local rule offers it a low-risk policy.
pub proof fn lemma_mutating_find_has_no_low_candidate(c: CommandModel)
    requires
        basename(c.program) == "find"@,
        exists|i: int| 0 <= i < c.args.len() && (c.args[i] == "-delete"@ || c.args[i] == "-exec"@),
    ensures
        low_risk_candidate(c) is None,
{
    reveal_strlit("find");
    reveal_strlit("pwd");
    reveal_strlit("ls");
    reveal_strlit("cat");
    reveal_strlit("head");
    reveal_strlit("tail");
    reveal_strlit("rg");
    reveal_strlit("grep");
    reveal_strlit("wc");
    reveal_strlit("sed");
    reveal_strlit("git");
    reveal_strlit("cargo");
    reveal_strlit("npm");
    reveal_strlit("pnpm");
    reveal_strlit("-delete");
    reveal_strlit("-exec");
    let i = choose|i: int| 0 <= i < c.args.len() && (c.args[i] == "-delete"@ || c.args[i] == "-exec"@);
    assert(!find_is_read_only(c.args)) by {
        assert(c.args[i] == "-delete"@ || c.args[i] == "-exec"@);
    }
    let p = basename(c.program);
    assert(p[0] == 'f');
    assert(!is_read_only_tool(p)) by {
        assert(p != "pwd"@ && p != "ls"@ && p != "cat"@ && p != "rg"@ && p != "wc"@) by {
            assert(p.len() == 4);
        }
        assert("head"@[0] == 'h' && "tail"@[0] == 't' && "grep"@[0] == 'g');
    }
    assert(p != "sed"@ && p != "git"@ && p != "cargo"@ && p != "npm"@ && p != "pnpm"@) by {
        assert(p.len() == 4);
        assert("pnpm"@[0] == 'p');
    }
}

/// A command line with a `find` that deletes or runs commands is never
/// classified low-risk, so no rule approves it on its own.
pub proof fn lemma_mutating_find_is_never_low(n: NormalizedModel, k: int)
    requires
        0 <= k < n.commands.len(),
        basename(n.commands[k].program) == "find"@,
        exists|i: int|
            0 <= i < n.commands[k].args.len() && (n.commands[k].args[i] == "-delete"@ || n.commands[k].args[i]
                == "-exec"@),
    ensures
        spec_classify(n).risk != BashRiskLevel::Low,
        spec_classify(n).candidate != Some(CandidateModel::ToolFamily { program: "find"@ }),
{
    lemma_mutating_find_has_no_low_candidate(n.commands[k]);
    if n.commands.len() == 1 {
        assert(k == 0);
    }
}

} // verus!
