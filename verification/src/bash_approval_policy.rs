//! Remembered approvals of bash command shapes.
//!
//! A policy pairs a matcher (an exact normalised command, an exact argv, an
//! argv prefix or a tool family) with a directory scope and an expiry.  The
//! store keeps the policies in memory; the caller loads and saves the file.
use vstd::prelude::*;
use vstd::string::*;
use crate::bash_risk::{
    BashRiskLevel, CandidateModel, CommandModel, NormalizedCommand, NormalizedModel,
    PolicyCandidate, basename, lemma_classify_shape, medium_signals, spec_classify, spec_parse,
};
use crate::text::{new_ulid_text, str_chars, string_views, views};

verus! {

#[derive(Debug, Clone, PartialEq, Eq)]
pub enum BashApprovalPolicyMatcher {
    ExactNormalizedCommand { command: String },
    ArgvExact { program: String, args: Vec<String> },
    ArgvPrefix { program: String, args: Vec<String> },
    ToolFamily { program: String },
}

impl View for BashApprovalPolicyMatcher {
    type V = CandidateModel;

    open spec fn view(&self) -> CandidateModel {
        match self {
            BashApprovalPolicyMatcher::ExactNormalizedCommand { command } => CandidateModel::ExactNormalizedCommand {
                command: command@,
            },
            BashApprovalPolicyMatcher::ArgvExact { program, args } => CandidateModel::ArgvExact {
                program: program@,
                args: string_views(args@),
            },
            BashApprovalPolicyMatcher::ArgvPrefix { program, args } => CandidateModel::ArgvPrefix {
                program: program@,
                args: string_views(args@),
            },
            BashApprovalPolicyMatcher::ToolFamily { program } => CandidateModel::ToolFamily {
                program: program@,
            },
        }
    }
}

pub(crate) fn clone_strings(v: &Vec<String>) -> (r: Vec<String>)
    ensures
        string_views(r@) == string_views(v@),
{
    let mut r: Vec<String> = Vec::new();
    let mut i: usize = 0;
    while i < v.len()
        invariant
            i <= v@.len(),
            r@.len() == i,
            forall|k: int| 0 <= k < i ==> #[trigger] r@[k]@ == v@[k]@,
        decreases v.len() - i,
    {
        r.push(v[i].clone());
        i = i + 1;
    }
    assert(string_views(r@) =~= string_views(v@));
    r
}

/// The command has a single segment and no pipe, control operator,
/// redirection or complex shell syntax.
pub open spec fn is_simple_argv_shape(n: NormalizedModel) -> bool {
    &&& n.commands.len() == 1
    &&& !n.has_pipe
    &&& !n.has_control_operator
    &&& !n.has_redirection
    &&& !n.has_complex_syntax
}

pub open spec fn is_seq_prefix(prefix: Seq<Seq<char>>, s: Seq<Seq<char>>) -> bool {
    prefix.len() <= s.len() && s.take(prefix.len() as int) == prefix
}

/// When a matcher accepts a normalised command.
pub open spec fn matcher_matches(m: CandidateModel, n: NormalizedModel) -> bool {
    match m {
        CandidateModel::ExactNormalizedCommand { command } => n.normalized == command,
        CandidateModel::ArgvExact { program, args } => is_simple_argv_shape(n)
            && n.commands[0].program == program && n.commands[0].args == args,
        CandidateModel::ArgvPrefix { program, args } => is_simple_argv_shape(n)
            && n.commands[0].program == program && is_seq_prefix(args, n.commands[0].args),
        CandidateModel::ToolFamily { program } => is_simple_argv_shape(n)
            && n.commands[0].program == program,
    }
}

/// Every path starts with itself.
pub proof fn lemma_path_starts_with_self(p: Seq<char>)
    ensures
        path_starts_with(p, p),
{
    let c = path_components(p);
    assert(c.take(c.len() as int) =~= c);
}

/// The policy candidate of a command's local decision matches that command
/// again, when the command has no `|` and its program is named without a
/// directory.
pub proof fn lemma_candidate_matches_own_command(command: Seq<char>)
    requires
        !spec_parse(command).has_pipe,
        spec_parse(command).commands.len() > 0 ==> basename(spec_parse(command).commands[0].program)
            == spec_parse(command).commands[0].program,
    ensures
        spec_classify(spec_parse(command)).candidate matches Some(c) ==> matcher_matches(
            c,
            spec_parse(command),
        ),
{
    let n = spec_parse(command);
    let d = spec_classify(n);
    if d.risk == BashRiskLevel::Low {
        lemma_classify_shape(n);
        assert(medium_signals(n).len() == 0);
        if n.has_complex_syntax {
            assert(medium_signals(n).len() > 0);
        }
        if n.has_control_operator {
            assert(medium_signals(n).len() > 0);
        }
        if n.has_redirection {
            assert(medium_signals(n).len() > 0);
        }
        let c0 = n.commands[0];
        let a = c0.args;
        if a.len() > 0 {
            assert(a.take(1) =~= seq![a[0]]);
        }
    }
}

fn is_simple_argv_shape_exec(command: &NormalizedCommand) -> (r: bool)
    ensures
        r == is_simple_argv_shape(command@),
{
    command.commands.len() == 1 && !command.has_pipe && !command.has_control_operator
        && !command.has_redirection && !command.has_complex_syntax
}

fn strings_prefix(prefix: &Vec<String>, s: &Vec<String>) -> (r: bool)
    ensures
        r == is_seq_prefix(string_views(prefix@), string_views(s@)),
{
    if prefix.len() > s.len() {
        return false;
    }
    let mut i: usize = 0;
    while i < prefix.len()
        invariant
            i <= prefix@.len() <= s@.len(),
            forall|k: int| 0 <= k < i ==> #[trigger] prefix@[k]@ == s@[k]@,
        decreases prefix.len() - i,
    {
        if prefix[i] != s[i] {
            assert(string_views(s@).take(prefix@.len() as int)[i as int] != string_views(
                prefix@,
            )[i as int]);
            return false;
        }
        i = i + 1;
    }
    assert(string_views(s@).take(prefix@.len() as int) =~= string_views(prefix@));
    true
}

fn strings_eq(a: &Vec<String>, b: &Vec<String>) -> (r: bool)
    ensures
        r == (string_views(a@) == string_views(b@)),
{
    if a.len() != b.len() {
        assert(string_views(a@).len() != string_views(b@).len());
        return false;
    }
    let r = strings_prefix(a, b);
    assert(string_views(b@).take(a@.len() as int) =~= string_views(b@));
    r
}

impl BashApprovalPolicyMatcher {
    /// The matcher that a policy candidate describes.
    pub fn from_candidate(candidate: &PolicyCandidate) -> (m: Self)
        ensures
            m@ == candidate@,
    {
        match candidate {
            PolicyCandidate::ExactNormalizedCommand { command } => BashApprovalPolicyMatcher::ExactNormalizedCommand {
                command: command.clone(),
            },
            PolicyCandidate::ArgvExact { program, args } => BashApprovalPolicyMatcher::ArgvExact {
                program: program.clone(),
                args: clone_strings(args),
            },
            PolicyCandidate::ArgvPrefix { program, args } => BashApprovalPolicyMatcher::ArgvPrefix {
                program: program.clone(),
                args: clone_strings(args),
            },
            PolicyCandidate::ToolFamily { program } => BashApprovalPolicyMatcher::ToolFamily {
                program: program.clone(),
            },
        }
    }

    pub fn clone_matcher(&self) -> (m: Self)
        ensures
            m@ == self@,
    {
        match self {
            BashApprovalPolicyMatcher::ExactNormalizedCommand { command } => BashApprovalPolicyMatcher::ExactNormalizedCommand {
                command: command.clone(),
            },
            BashApprovalPolicyMatcher::ArgvExact { program, args } => BashApprovalPolicyMatcher::ArgvExact {
                program: program.clone(),
                args: clone_strings(args),
            },
            BashApprovalPolicyMatcher::ArgvPrefix { program, args } => BashApprovalPolicyMatcher::ArgvPrefix {
                program: program.clone(),
                args: clone_strings(args),
            },
            BashApprovalPolicyMatcher::ToolFamily { program } => BashApprovalPolicyMatcher::ToolFamily {
                program: program.clone(),
            },
        }
    }

    /// Whether the matcher accepts a normalised command.
    pub fn matches(&self, command: &NormalizedCommand) -> (r: bool)
        ensures
            r == matcher_matches(self@, command@),
    {
        match self {
            BashApprovalPolicyMatcher::ExactNormalizedCommand { command: expected } => {
                command.normalized == *expected
            },
            BashApprovalPolicyMatcher::ArgvExact { program, args } => {
                if !is_simple_argv_shape_exec(command) {
                    return false;
                }
                assert(command@.commands[0] == command.commands@[0]@);
                command.commands[0].program == *program && strings_eq(
                    &command.commands[0].args,
                    args,
                )
            },
            BashApprovalPolicyMatcher::ArgvPrefix { program, args } => {
                if !is_simple_argv_shape_exec(command) {
                    return false;
                }
                assert(command@.commands[0] == command.commands@[0]@);
                command.commands[0].program == *program && strings_prefix(
                    args,
                    &command.commands[0].args,
                )
            },
            BashApprovalPolicyMatcher::ToolFamily { program } => {
                if !is_simple_argv_shape_exec(command) {
                    return false;
                }
                assert(command@.commands[0] == command.commands@[0]@);
                command.commands[0].program == *program
            },
        }
    }
}

// ---------------------------------------------------------------------------
// Paths.
// ---------------------------------------------------------------------------

pub open spec fn flush_part(acc: Seq<Seq<char>>, cur: Seq<char>) -> Seq<Seq<char>> {
    if cur.len() == 0 || cur == "."@ {
        acc
    } else {
        acc.push(cur)
    }
}

pub open spec fn path_parts_from(s: Seq<char>, i: int, cur: Seq<char>, acc: Seq<Seq<char>>) -> Seq<
    Seq<char>,
>
    decreases s.len() - i,
{
    if i < 0 || i >= s.len() {
        flush_part(acc, cur)
    } else if s[i] == '/' {
        path_parts_from(s, i + 1, Seq::empty(), flush_part(acc, cur))
    } else {
        path_parts_from(s, i + 1, cur.push(s[i]), acc)
    }
}

/// `Path::components` of a Unix path, as text: a leading root `/`, a leading
/// `.` when the path starts with `./` or is `.`, then the names between
/// separators without empty and `.` names.
pub open spec fn path_components(p: Seq<char>) -> Seq<Seq<char>> {
    (if p.len() > 0 && p[0] == '/' {
        seq!["/"@]
    } else if p == "."@ || (p.len() >= 2 && p[0] == '.' && p[1] == '/') {
        seq!["."@]
    } else {
        Seq::empty()
    }) + path_parts_from(p, 0, Seq::empty(), Seq::empty())
}

/// `Path::starts_with`: the components of `base` are a prefix of those of `p`.
pub open spec fn path_starts_with(p: Seq<char>, base: Seq<char>) -> bool {
    is_seq_prefix(path_components(base), path_components(p))
}

fn path_components_exec(p: &[char]) -> (r: Vec<Vec<char>>)
    ensures
        views(r@) == path_components(p@),
{
    let mut r: Vec<Vec<char>> = Vec::new();
    let ghost head: Seq<Seq<char>>;
    proof {
        reveal_strlit(".");
        reveal_strlit("/");
        assert("."@ =~= seq!['.']);
        assert("/"@ =~= seq!['/']);
    }
    if p.len() > 0 && p[0] == '/' {
        let mut root: Vec<char> = Vec::new();
        root.push('/');
        r.push(root);
        proof {
            head = seq!["/"@];
            assert(views(r@) =~= head);
        }
    } else if (p.len() == 1 && p[0] == '.') || (p.len() >= 2 && p[0] == '.' && p[1] == '/') {
        let mut cur_dir: Vec<char> = Vec::new();
        cur_dir.push('.');
        r.push(cur_dir);
        proof {
            head = seq!["."@];
            assert(views(r@) =~= head);
            if p@.len() == 1 {
                assert(p@ =~= "."@);
            }
        }
    } else {
        proof {
            head = Seq::empty();
            assert(views(r@) =~= head);
            if p@ == "."@ {
                assert(p@.len() == 1 && p@[0] == '.');
            }
        }
    }
    let ghost start = head;
    let mut parts: Vec<Vec<char>> = Vec::new();
    let mut cur: Vec<char> = Vec::new();
    let mut i: usize = 0;
    assert(views(parts@) =~= Seq::<Seq<char>>::empty());
    assert(cur@ =~= Seq::<char>::empty());
    while i < p.len()
        invariant
            i <= p@.len(),
            path_parts_from(p@, 0, Seq::empty(), Seq::empty()) == path_parts_from(
                p@,
                i as int,
                cur@,
                views(parts@),
            ),
        decreases p.len() - i,
    {
        if p[i] == '/' {
            push_part(&mut parts, cur);
            cur = Vec::new();
        } else {
            cur.push(p[i]);
        }
        i = i + 1;
    }
    push_part(&mut parts, cur);
    let mut j: usize = 0;
    let ghost before = views(r@);
    assert(before == start);
    while j < parts.len()
        invariant
            j <= parts@.len(),
            views(r@) == before + views(parts@).take(j as int),
        decreases parts.len() - j,
    {
        let part = clone_chars(&parts[j]);
        let ghost b2 = r@;
        r.push(part);
        j = j + 1;
        assert(views(r@) =~= views(b2).push(parts@[j - 1]@));
        assert(views(parts@).take(j as int) =~= views(parts@).take(j - 1).push(parts@[j - 1]@));
    }
    assert(views(parts@).take(parts@.len() as int) =~= views(parts@));
    assert(start == (if p@.len() > 0 && p@[0] == '/' {
        seq!["/"@]
    } else if p@ == "."@ || (p@.len() >= 2 && p@[0] == '.' && p@[1] == '/') {
        seq!["."@]
    } else {
        Seq::<Seq<char>>::empty()
    }));
    r
}

fn clone_chars(v: &Vec<char>) -> (r: Vec<char>)
    ensures
        r@ == v@,
{
    let mut r: Vec<char> = Vec::new();
    let mut i: usize = 0;
    while i < v.len()
        invariant
            i <= v@.len(),
            r@ == v@.take(i as int),
        decreases v.len() - i,
    {
        r.push(v[i]);
        i = i + 1;
        assert(r@ =~= v@.take(i as int));
    }
    assert(v@.take(v@.len() as int) =~= v@);
    r
}

fn push_part(parts: &mut Vec<Vec<char>>, cur: Vec<char>)
    ensures
        views(final(parts)@) == flush_part(views(old(parts)@), cur@),
{
    let is_dot = cur.len() == 1 && cur[0] == '.';
    proof {
        reveal_strlit(".");
        assert("."@ =~= seq!['.']);
        if cur@.len() == 1 && cur@[0] == '.' {
            assert(cur@ =~= "."@);
        }
    }
    if cur.len() > 0 && !is_dot {
        let ghost before = parts@;
        let ghost c = cur@;
        parts.push(cur);
        assert(views(parts@) =~= views(before).push(c));
    }
}

fn seqs_prefix(prefix: &Vec<Vec<char>>, s: &Vec<Vec<char>>) -> (r: bool)
    ensures
        r == is_seq_prefix(views(prefix@), views(s@)),
{
    if prefix.len() > s.len() {
        return false;
    }
    let mut i: usize = 0;
    while i < prefix.len()
        invariant
            i <= prefix@.len() <= s@.len(),
            forall|k: int| 0 <= k < i ==> #[trigger] prefix@[k]@ == s@[k]@,
        decreases prefix.len() - i,
    {
        if !crate::text::chars_eq(prefix[i].as_slice(), s[i].as_slice()) {
            assert(views(s@).take(prefix@.len() as int)[i as int] != views(prefix@)[i as int]);
            return false;
        }
        i = i + 1;
    }
    assert(views(s@).take(prefix@.len() as int) =~= views(prefix@));
    true
}

/// `Path::starts_with` on Unix paths given as text.
pub fn path_starts_with_exec(p: &str, base: &str) -> (r: bool)
    ensures
        r == path_starts_with(p@, base@),
{
    let pc = str_chars(p);
    let bc = str_chars(base);
    let a = path_components_exec(pc.as_slice());
    let b = path_components_exec(bc.as_slice());
    seqs_prefix(&b, &a)
}

// ---------------------------------------------------------------------------
// Policies and the store.
// ---------------------------------------------------------------------------

/// A remembered approval.  Times are milliseconds since the Unix epoch and the
/// confidence is in thousandths.
#[derive(Debug, Clone)]
pub struct BashApprovalPolicy {
    pub id: String,
    pub matcher: BashApprovalPolicyMatcher,
    pub cwd_scope: String,
    pub risk: BashRiskLevel,
    pub source: String,
    pub confidence_permille: u32,
    pub reason: String,
    pub created_at_ms: i64,
    pub expires_at_ms: i64,
    pub hit_count: u64,
    pub last_hit_at_ms: Option<i64>,
}

pub struct PolicyModel {
    pub id: Seq<char>,
    pub matcher: CandidateModel,
    pub cwd_scope: Seq<char>,
    pub risk: BashRiskLevel,
    pub source: Seq<char>,
    pub confidence_permille: u32,
    pub reason: Seq<char>,
    pub created_at_ms: i64,
    pub expires_at_ms: i64,
    pub hit_count: u64,
    pub last_hit_at_ms: Option<i64>,
}

impl View for BashApprovalPolicy {
    type V = PolicyModel;

    open spec fn view(&self) -> PolicyModel {
        PolicyModel {
            id: self.id@,
            matcher: self.matcher@,
            cwd_scope: self.cwd_scope@,
            risk: self.risk,
            source: self.source@,
            confidence_permille: self.confidence_permille,
            reason: self.reason@,
            created_at_ms: self.created_at_ms,
            expires_at_ms: self.expires_at_ms,
            hit_count: self.hit_count,
            last_hit_at_ms: self.last_hit_at_ms,
        }
    }
}

pub open spec fn policy_views(v: Seq<BashApprovalPolicy>) -> Seq<PolicyModel> {
    v.map_values(|p: BashApprovalPolicy| p@)
}

/// A policy applies to a command run in `cwd` at time `now`: it is a low-risk
/// policy, not expired, scoped to a directory that contains `cwd`, and its
/// matcher accepts the command.
pub open spec fn policy_applies(
    p: PolicyModel,
    cwd: Seq<char>,
    now_ms: i64,
    n: NormalizedModel,
) -> bool {
    &&& p.risk == BashRiskLevel::Low
    &&& p.expires_at_ms > now_ms
    &&& path_starts_with(cwd, p.cwd_scope)
    &&& matcher_matches(p.matcher, n)
}

/// The index of the first policy in `ps` that applies, if any.
pub open spec fn first_applying(
    ps: Seq<PolicyModel>,
    cwd: Seq<char>,
    now_ms: i64,
    n: NormalizedModel,
) -> Option<int>
    decreases ps.len(),
{
    if ps.len() == 0 {
        None
    } else {
        match first_applying(ps.drop_last(), cwd, now_ms, n) {
            Some(i) => Some(i),
            None => if policy_applies(ps.last(), cwd, now_ms, n) {
                Some(ps.len() - 1)
            } else {
                None
            },
        }
    }
}

pub proof fn lemma_first_applying(ps: Seq<PolicyModel>, cwd: Seq<char>, now_ms: i64, n: NormalizedModel, i: int)
    requires
        0 <= i <= ps.len(),
        forall|k: int| 0 <= k < i ==> !policy_applies(#[trigger] ps[k], cwd, now_ms, n),
        i < ps.len() ==> policy_applies(ps[i], cwd, now_ms, n),
    ensures
        first_applying(ps, cwd, now_ms, n) == if i < ps.len() {
            Some(i)
        } else {
            None::<int>
        },
    decreases ps.len(),
{
    if ps.len() > 0 {
        if i < ps.len() - 1 {
            lemma_first_applying(ps.drop_last(), cwd, now_ms, n, i);
        } else {
            lemma_first_applying(ps.drop_last(), cwd, now_ms, n, ps.len() - 1);
        }
    }
}

/// The policy after a recorded hit at `now_ms`.
pub open spec fn after_hit(p: PolicyModel, now_ms: i64) -> PolicyModel {
    PolicyModel {
        hit_count: if p.hit_count == u64::MAX {
            u64::MAX
        } else {
            (p.hit_count + 1) as u64
        },
        last_hit_at_ms: Some(now_ms),
        ..p
    }
}

impl BashApprovalPolicy {
    /// A new policy with a fresh `policy_<ULID>` id, created now, never hit.
    pub fn new(
        matcher: BashApprovalPolicyMatcher,
        cwd_scope: String,
        risk: BashRiskLevel,
        source: String,
        confidence_permille: u32,
        reason: String,
        expires_at_ms: i64,
        now_ms: i64,
    ) -> (p: Self)
        ensures
            p.id@.len() == 33,
            p.created_at_ms == now_ms,
            p.id@.subrange(0, 7) == "policy_"@,
            p.matcher@ == matcher@,
            p.cwd_scope@ == cwd_scope@,
            p.risk == risk,
            p.source@ == source@,
            p.confidence_permille == confidence_permille,
            p.reason@ == reason@,
            p.expires_at_ms == expires_at_ms,
            p.hit_count == 0,
            p.last_hit_at_ms is None,
    {
        let mut id = String::from_str("policy_");
        let ulid = new_ulid_text();
        id.append(ulid.as_str());
        proof {
            reveal_strlit("policy_");
            assert(id@.subrange(0, 7) =~= "policy_"@);
        }
        BashApprovalPolicy {
            id,
            matcher,
            cwd_scope,
            risk,
            source,
            confidence_permille,
            reason,
            created_at_ms: now_ms,
            expires_at_ms,
            hit_count: 0,
            last_hit_at_ms: None,
        }
    }

    pub fn clone_policy(&self) -> (p: Self)
        ensures
            p@ == self@,
    {
        BashApprovalPolicy {
            id: self.id.clone(),
            matcher: self.matcher.clone_matcher(),
            cwd_scope: self.cwd_scope.clone(),
            risk: self.risk,
            source: self.source.clone(),
            confidence_permille: self.confidence_permille,
            reason: self.reason.clone(),
            created_at_ms: self.created_at_ms,
            expires_at_ms: self.expires_at_ms,
            hit_count: self.hit_count,
            last_hit_at_ms: self.last_hit_at_ms,
        }
    }

    /// The policy is low risk, not expired at `now_ms`, and `cwd` lies in its scope.
    pub fn is_active_for(&self, cwd: &str, now_ms: i64) -> (r: bool)
        ensures
            r == (self.risk == BashRiskLevel::Low && self.expires_at_ms > now_ms
                && path_starts_with(cwd@, self.cwd_scope@)),
    {
        self.risk == BashRiskLevel::Low && self.expires_at_ms > now_ms && path_starts_with_exec(
            cwd,
            self.cwd_scope.as_str(),
        )
    }
}

pub const MILLIS_PER_DAY: i64 = 86_400_000;

/// The policies of one file, kept in memory.  `path` names the file that the
/// caller loads and saves.
#[derive(Debug)]
pub struct BashApprovalPolicyStore {
    pub path: String,
    pub ttl_days: u64,
    pub policies: Vec<BashApprovalPolicy>,
}

impl BashApprovalPolicyStore {
    pub fn new(path: String, ttl_days: u64, policies: Vec<BashApprovalPolicy>) -> (s: Self)
        ensures
            s.path == path,
            s.ttl_days == ttl_days,
            s.policies == policies,
    {
        BashApprovalPolicyStore { path, ttl_days, policies }
    }

    pub fn policies(&self) -> (r: &[BashApprovalPolicy])
        ensures
            r@ == self.policies@,
    {
        self.policies.as_slice()
    }

    /// `now_ms` plus the store's time to live.
    pub fn default_expiry(&self, now_ms: i64) -> (t: i64)
        requires
            0 <= now_ms as int + self.ttl_days as int * MILLIS_PER_DAY <= i64::MAX,
        ensures
            t == now_ms as int + self.ttl_days as int * MILLIS_PER_DAY,
    {
        let t: i128 = now_ms as i128 + (self.ttl_days as i128) * 86_400_000i128;
        t as i64
    }

    /// Appends a policy and returns its id.
    pub fn add_policy(&mut self, policy: BashApprovalPolicy) -> (id: String)
        ensures
            final(self).policies@ == old(self).policies@.push(policy),
            final(self).path == old(self).path,
            final(self).ttl_days == old(self).ttl_days,
            id@ == policy.id@,
    {
        let id = policy.id.clone();
        self.policies.push(policy);
        id
    }

    /// Finds the first policy that applies to `command` in `cwd` at `now_ms`,
    /// records the hit on it (count and time), and returns a copy of it.
    pub fn find_matching_low_risk_policy(&mut self, command: &str, cwd: &str, now_ms: i64) -> (r:
        Option<BashApprovalPolicy>)
        ensures
            final(self).path == old(self).path,
            final(self).ttl_days == old(self).ttl_days,
            ({
                let first = first_applying(
                    policy_views(old(self).policies@),
                    cwd@,
                    now_ms,
                    spec_parse(command@),
                );
                match first {
                    None => r is None && final(self).policies@ == old(self).policies@,
                    Some(i) => {
                        &&& 0 <= i < old(self).policies@.len()
                        &&& r matches Some(found) && found@ == after_hit(
                            old(self).policies@[i]@,
                            now_ms,
                        )
                        &&& final(self).policies@.len() == old(self).policies@.len()
                        &&& final(self).policies@[i]@ == after_hit(old(self).policies@[i]@, now_ms)
                        &&& forall|k: int|
                            0 <= k < old(self).policies@.len() && k != i
                                ==> #[trigger] final(self).policies@[k] == old(self).policies@[k]
                    },
                }
            }),
    {
        let normalized = NormalizedCommand::parse(command);
        let mut i: usize = 0;
        while i < self.policies.len()
            invariant
                i <= self.policies@.len(),
                self.policies@ == old(self).policies@,
                self.path == old(self).path,
                self.ttl_days == old(self).ttl_days,
                normalized@ == spec_parse(command@),
                forall|k: int|
                    0 <= k < i ==> !policy_applies(
                        #[trigger] old(self).policies@[k]@,
                        cwd@,
                        now_ms,
                        normalized@,
                    ),
            decreases self.policies.len() - i,
        {
            let active = self.policies[i].is_active_for(cwd, now_ms);
            if active && self.policies[i].matcher.matches(&normalized) {
                let mut policy = self.policies[i].clone_policy();
                policy.hit_count = if policy.hit_count == u64::MAX {
                    u64::MAX
                } else {
                    policy.hit_count + 1
                };
                policy.last_hit_at_ms = Some(now_ms);
                let found = policy.clone_policy();
                let ghost old_policies = self.policies@;
                self.policies.set(i, policy);
                assert(forall|k: int|
                    0 <= k < old_policies.len() && k != i ==> #[trigger] self.policies@[k]
                        == old_policies[k]);
                assert(self.policies@[i as int]@ == found@);
                proof {
                    let ps = policy_views(old_policies);
                    assert forall|k: int| 0 <= k < i implies !policy_applies(
                        #[trigger] ps[k],
                        cwd@,
                        now_ms,
                        normalized@,
                    ) by {
                        assert(ps[k] == old_policies[k]@);
                    }
                    lemma_first_applying(ps, cwd@, now_ms, normalized@, i as int);
                }
                return Some(found);
            }
            i = i + 1;
        }
        proof {
            let ps = policy_views(old(self).policies@);
            assert forall|k: int| 0 <= k < ps.len() implies !policy_applies(
                #[trigger] ps[k],
                cwd@,
                now_ms,
                normalized@,
            ) by {
                assert(ps[k] == old(self).policies@[k]@);
            }
            lemma_first_applying(ps, cwd@, now_ms, normalized@, ps.len() as int);
        }
        None
    }
}

/// A matcher other than the exact command only accepts one plain command:
/// no pipe, no `&&`/`||`/`;`, no redirection, no command substitution or
/// heredoc.  A remembered program or argument policy never approves a
/// chained or redirecting command line.
pub proof fn lemma_family_matchers_need_plain_commands(m: CandidateModel, n: NormalizedModel)
    requires
        matcher_matches(m, n),
        !(m is ExactNormalizedCommand),
    ensures
        n.commands.len() == 1,
        !n.has_pipe,
        !n.has_control_operator,
        !n.has_redirection,
        !n.has_complex_syntax,
{
}

/// The exact-command matcher accepts only the same normalised command.
pub proof fn lemma_exact_matcher_needs_same_command(command: Seq<char>, n: NormalizedModel)
    requires
        matcher_matches(CandidateModel::ExactNormalizedCommand { command }, n),
    ensures
        n.normalized == command,
{
}

/// A policy that the store finds for a command line with a pipe, a control
/// operator, a redirection or complex syntax, or with several commands, is
/// an exact-command policy for that very command line.
pub proof fn lemma_found_policy_for_shell_features(
    ps: Seq<PolicyModel>,
    cwd: Seq<char>,
    now_ms: i64,
    n: NormalizedModel,
)
    requires
        first_applying(ps, cwd, now_ms, n) is Some,
        n.commands.len() != 1 || n.has_pipe || n.has_control_operator || n.has_redirection
            || n.has_complex_syntax,
    ensures
        ({
            let i = first_applying(ps, cwd, now_ms, n)->Some_0;
            &&& 0 <= i < ps.len()
            &&& ps[i].matcher == CandidateModel::ExactNormalizedCommand { command: n.normalized }
        }),
    decreases ps.len(),
{
    if ps.len() > 0 {
        match first_applying(ps.drop_last(), cwd, now_ms, n) {
            Some(i) => {
                lemma_found_policy_for_shell_features(ps.drop_last(), cwd, now_ms, n);
            },
            None => {
                let p = ps.last();
                if !(p.matcher is ExactNormalizedCommand) {
                    lemma_family_matchers_need_plain_commands(p.matcher, n);
                }
            },
        }
    }
}

} // verus!
