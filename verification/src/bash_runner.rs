//! The rules around running a bash command: which commands and working
//! directories are accepted, how long a command may run, which environment
//! variables it sees, and how much of its output is kept.  Spawning the
//! process and reading its pipes is left to the caller.
use vstd::prelude::*;
use vstd::string::*;
use crate::bash_approval_gate::BashApprovalSummary;
use crate::bash_approval_policy::{path_starts_with, path_starts_with_exec};
use crate::config::BashConfig;
use crate::text::{
    append_chars, append_str, ascii_upper, ascii_upper_vec, chars_contains_str, chars_is_blank,
    contains_sub, decimal, decimal_chars, str_chars, str_eq, string_from_chars, string_views,
    trim, utf8_error, utf8_error_of, utf8_lossy, utf8_lossy_text, utf8_text,
};

verus! {

pub const BASH_PROGRAM: &'static str = "/bin/bash";

#[derive(Debug, Clone)]
pub struct BashCommandRequest {
    pub command: String,
    pub cwd: Option<String>,
    pub timeout_ms: Option<u64>,
}

#[derive(Debug, Clone, Copy, PartialEq, Eq, Structural)]
pub enum BashCommandStatus {
    Exited,
    TimedOut,
    Denied,
}

impl BashCommandStatus {
    /// The status as it is written out: `exited`, `timed_out` or `denied`.
    pub fn as_str(&self) -> (s: &'static str)
        ensures
            s@ == match *self {
                BashCommandStatus::Exited => "exited"@,
                BashCommandStatus::TimedOut => "timed_out"@,
                BashCommandStatus::Denied => "denied"@,
            },
    {
        match self {
            BashCommandStatus::Exited => "exited",
            BashCommandStatus::TimedOut => "timed_out",
            BashCommandStatus::Denied => "denied",
        }
    }
}

#[derive(Debug, Clone)]
pub struct BashCommandOutput {
    pub status: BashCommandStatus,
    pub exit_code: Option<i32>,
    pub duration_ms: u64,
    pub cwd: String,
    pub stdout: String,
    pub stderr: String,
    pub stdout_truncated: bool,
    pub stderr_truncated: bool,
    pub approval: Option<BashApprovalSummary>,
}

/// Why a command is not run.
#[derive(Debug, Clone, PartialEq, Eq)]
pub enum BashRunError {
    EmptyCommand,
    CommandTooLong { chars: usize, limit: usize },
    NulByte,
    ZeroTimeout,
    CwdOutsideRoots { cwd: String },
}

pub open spec fn spec_run_error_text(e: BashRunError) -> Seq<char> {
    match e {
        BashRunError::EmptyCommand => "bash command cannot be empty"@,
        BashRunError::CommandTooLong { chars, limit } => "bash command is too long: "@ + decimal(
            chars as nat,
        ) + " chars (limit: "@ + decimal(limit as nat) + " chars)"@,
        BashRunError::NulByte => "bash command cannot contain NUL bytes"@,
        BashRunError::ZeroTimeout => "timeout_ms must be greater than zero"@,
        BashRunError::CwdOutsideRoots { cwd } => "bash cwd is outside allowed roots: "@ + cwd@,
    }
}

impl BashRunError {
    pub fn describe(&self) -> (s: String)
        ensures
            s@ == spec_run_error_text(*self),
    {
        match self {
            BashRunError::EmptyCommand => String::from_str("bash command cannot be empty"),
            BashRunError::CommandTooLong { chars, limit } => {
                let mut v = str_chars("bash command is too long: ");
                append_chars(&mut v, decimal_chars(*chars as u64).as_slice());
                append_str(&mut v, " chars (limit: ");
                append_chars(&mut v, decimal_chars(*limit as u64).as_slice());
                append_str(&mut v, " chars)");
                string_from_chars(v.as_slice())
            },
            BashRunError::NulByte => String::from_str("bash command cannot contain NUL bytes"),
            BashRunError::ZeroTimeout => String::from_str("timeout_ms must be greater than zero"),
            BashRunError::CwdOutsideRoots { cwd } => {
                let mut v = str_chars("bash cwd is outside allowed roots: ");
                append_str(&mut v, cwd.as_str());
                string_from_chars(v.as_slice())
            },
        }
    }
}

/// A command is run only when it is not blank, has at most
/// `max_command_chars` characters and holds no NUL character.
pub open spec fn spec_validate_command(max_chars: usize, command: Seq<char>) -> Result<(), BashRunError> {
    if trim(command).len() == 0 {
        Err(BashRunError::EmptyCommand)
    } else if command.len() > max_chars {
        Err(BashRunError::CommandTooLong { chars: command.len() as usize, limit: max_chars })
    } else if command.contains('\0') {
        Err(BashRunError::NulByte)
    } else {
        Ok(())
    }
}

/// The timeout asked for, or the configured one, capped at the maximum; zero
/// is refused.
pub open spec fn spec_resolve_timeout(config: BashConfig, requested: Option<u64>) -> Result<u64, BashRunError> {
    let t = match requested {
        Some(t) => t,
        None => config.timeout_ms,
    };
    if t == 0 {
        Err(BashRunError::ZeroTimeout)
    } else if t <= config.max_timeout_ms {
        Ok(t)
    } else {
        Ok(config.max_timeout_ms)
    }
}

/// Some root is a leading part of `cwd`, component by component.
pub open spec fn inside_some_root(cwd: Seq<char>, roots: Seq<Seq<char>>) -> bool {
    exists|k: int| 0 <= k < roots.len() && path_starts_with(cwd, #[trigger] roots[k])
}

/// A variable that may hold a secret: its name, in ASCII upper case,
/// contains `KEY`, `TOKEN`, `SECRET`, `PASSWORD` or `AUTHORIZATION`.
pub open spec fn spec_is_secret_env_name(name: Seq<char>) -> bool {
    let u = ascii_upper(name);
    ||| contains_sub(u, "KEY"@)
    ||| contains_sub(u, "TOKEN"@)
    ||| contains_sub(u, "SECRET"@)
    ||| contains_sub(u, "PASSWORD"@)
    ||| contains_sub(u, "AUTHORIZATION"@)
}

pub fn is_secret_env_name(name: &str) -> (b: bool)
    ensures
        b == spec_is_secret_env_name(name@),
{
    let u = ascii_upper_vec(str_chars(name).as_slice());
    let s = u.as_slice();
    chars_contains_str(s, "KEY") || chars_contains_str(s, "TOKEN") || chars_contains_str(
        s,
        "SECRET",
    ) || chars_contains_str(s, "PASSWORD") || chars_contains_str(s, "AUTHORIZATION")
}

pub open spec fn pair_views(v: Seq<(String, String)>) -> Seq<(Seq<char>, Seq<char>)> {
    v.map_values(|p: (String, String)| (p.0@, p.1@))
}

/// The pairs whose name is allowlisted and does not look secret, in order.
pub open spec fn kept_env_pairs(allow: Seq<Seq<char>>, pairs: Seq<(Seq<char>, Seq<char>)>) -> Seq<
    (Seq<char>, Seq<char>),
>
    decreases pairs.len(),
{
    if pairs.len() == 0 {
        Seq::empty()
    } else {
        let prev = kept_env_pairs(allow, pairs.drop_last());
        let (name, value) = pairs.last();
        if allow.contains(name) && !spec_is_secret_env_name(name) {
            prev.push((name, value))
        } else {
            prev
        }
    }
}

fn strings_contain(v: &Vec<String>, s: &str) -> (b: bool)
    ensures
        b == string_views(v@).contains(s@),
{
    let mut i: usize = 0;
    while i < v.len()
        invariant
            i <= v@.len(),
            forall|k: int| 0 <= k < i ==> v@[k]@ != s@,
        decreases v.len() - i,
    {
        if str_eq(v[i].as_str(), s) {
            assert(string_views(v@)[i as int] == s@);
            return true;
        }
        i = i + 1;
    }
    assert forall|k: int| 0 <= k < string_views(v@).len() implies string_views(v@)[k] != s@ by {
        assert(string_views(v@)[k] == v@[k]@);
    }
    false
}

/// The environment handed to the command: the allowlisted variables whose
/// names do not look secret, in the order given.
pub fn filter_env_pairs(allowlist: &Vec<String>, pairs: Vec<(String, String)>) -> (r: Vec<
    (String, String),
>)
    ensures
        pair_views(r@) == kept_env_pairs(string_views(allowlist@), pair_views(pairs@)),
{
    let mut r: Vec<(String, String)> = Vec::new();
    let mut i: usize = 0;
    let ghost allow = string_views(allowlist@);
    assert(pair_views(pairs@).take(0) =~= Seq::<(Seq<char>, Seq<char>)>::empty());
    while i < pairs.len()
        invariant
            i <= pairs@.len(),
            allow == string_views(allowlist@),
            pair_views(r@) == kept_env_pairs(allow, pair_views(pairs@).take(i as int)),
        decreases pairs.len() - i,
    {
        proof {
            assert(pair_views(pairs@).take(i + 1).drop_last() =~= pair_views(pairs@).take(
                i as int,
            ));
            assert(pair_views(pairs@).take(i + 1).last() == (pairs@[i as int].0@, pairs@[i as int].1@));
        }
        let name = &pairs[i].0;
        if strings_contain(allowlist, name.as_str()) && !is_secret_env_name(name.as_str()) {
            let ghost before = pair_views(r@);
            r.push((pairs[i].0.clone(), pairs[i].1.clone()));
            assert(pair_views(r@) =~= before.push((pairs@[i as int].0@, pairs@[i as int].1@)));
        }
        i = i + 1;
    }
    assert(pair_views(pairs@).take(pairs@.len() as int) =~= pair_views(pairs@));
    r
}

/// The text of output read from a pipe: the bytes when they are UTF-8; for
/// output that was cut and ends inside a character, the whole characters
/// before the cut; else the bytes with each invalid sequence replaced.
pub open spec fn spec_output_text(bytes: Seq<u8>, truncated: bool) -> Seq<char> {
    match utf8_error_of(bytes) {
        None => vstd::utf8::decode_utf8(bytes),
        Some((n, at_end)) => if truncated && at_end {
            vstd::utf8::decode_utf8(bytes.take(n as int))
        } else {
            utf8_lossy(bytes)
        },
    }
}

pub fn bytes_to_utf8_text(bytes: &[u8], truncated: bool) -> (r: String)
    ensures
        r@ == spec_output_text(bytes@, truncated),
{
    match utf8_error(bytes) {
        None => {
            let mut v: Vec<u8> = Vec::new();
            let mut i: usize = 0;
            while i < bytes.len()
                invariant
                    i <= bytes@.len(),
                    v@ == bytes@.take(i as int),
                decreases bytes.len() - i,
            {
                v.push(bytes[i]);
                i = i + 1;
                assert(v@ =~= bytes@.take(i as int));
            }
            assert(bytes@.take(bytes@.len() as int) =~= bytes@);
            match utf8_text(v) {
                Some(t) => t,
                None => String::new(),
            }
        },
        Some((n, at_end)) => if truncated && at_end {
            let mut v: Vec<u8> = Vec::new();
            let mut i: usize = 0;
            while i < n
                invariant
                    i <= n,
                    n <= bytes@.len(),
                    v@ == bytes@.take(i as int),
                decreases n - i,
            {
                v.push(bytes[i]);
                i = i + 1;
                assert(v@ =~= bytes@.take(i as int));
            }
            match utf8_text(v) {
                Some(t) => t,
                None => String::new(),
            }
        } else {
            utf8_lossy_text(bytes)
        },
    }
}

/// Output read from a pipe: the first `limit` bytes are kept, the rest is
/// only counted.
pub struct LimitedOutput {
    pub retained: Vec<u8>,
    pub total: usize,
    pub limit: usize,
}

impl LimitedOutput {
    pub open spec fn wf(&self) -> bool {
        self.retained@.len() <= self.limit && self.retained@.len() <= self.total
    }

    pub fn new(limit: usize) -> (o: Self)
        ensures
            o.wf(),
            o.retained@ == Seq::<u8>::empty(),
            o.total == 0,
            o.limit == limit,
    {
        LimitedOutput { retained: Vec::new(), total: 0, limit }
    }

    /// Takes one chunk read from the pipe.
    pub fn push_chunk(&mut self, chunk: &[u8])
        requires
            old(self).wf(),
        ensures
            final(self).wf(),
            final(self).limit == old(self).limit,
            final(self).total == if old(self).total + chunk@.len() <= usize::MAX {
                (old(self).total + chunk@.len()) as usize
            } else {
                usize::MAX
            },
            final(self).retained@ == old(self).retained@ + chunk@.take(
                if old(self).limit - old(self).retained@.len() <= chunk@.len() {
                    (old(self).limit - old(self).retained@.len()) as int
                } else {
                    chunk@.len() as int
                },
            ),
    {
        self.total = self.total.saturating_add(chunk.len());
        if self.retained.len() < self.limit {
            let remaining = self.limit - self.retained.len();
            let keep = if remaining <= chunk.len() {
                remaining
            } else {
                chunk.len()
            };
            let mut i: usize = 0;
            let ghost start = self.retained@;
            while i < keep
                invariant
                    i <= keep,
                    keep <= chunk@.len(),
                    self.retained@ == start + chunk@.take(i as int),
                    self.limit == old(self).limit,
                    self.total == if old(self).total + chunk@.len() <= usize::MAX {
                        (old(self).total + chunk@.len()) as usize
                    } else {
                        usize::MAX
                    },
                decreases keep - i,
            {
                self.retained.push(chunk[i]);
                i = i + 1;
                assert(self.retained@ =~= start + chunk@.take(i as int));
            }
        } else {
            assert(chunk@.take(0) =~= Seq::<u8>::empty());
            assert(old(self).retained@ + chunk@.take(0) =~= old(self).retained@);
        }
    }

    /// More was read than kept.
    pub fn truncated(&self) -> (b: bool)
        ensures
            b == (self.total > self.retained@.len()),
    {
        self.total > self.retained.len()
    }
}

/// The checks made before a command runs.
#[derive(Debug, Clone)]
pub struct BashRunner {
    pub config: BashConfig,
}

impl BashRunner {
    pub fn new(config: BashConfig) -> (r: Self)
        ensures
            r.config == config,
    {
        BashRunner { config }
    }

    pub fn validate_command(&self, command: &str) -> (r: Result<(), BashRunError>)
        ensures
            r == spec_validate_command(self.config.max_command_chars, command@),
    {
        let v = str_chars(command);
        if chars_is_blank(v.as_slice()) {
            return Err(BashRunError::EmptyCommand);
        }
        if v.len() > self.config.max_command_chars {
            return Err(
                BashRunError::CommandTooLong { chars: v.len(), limit: self.config.max_command_chars },
            );
        }
        let mut i: usize = 0;
        while i < v.len()
            invariant
                i <= v@.len(),
                v@ == command@,
                trim(command@).len() != 0,
                command@.len() <= self.config.max_command_chars,
                forall|k: int| 0 <= k < i ==> v@[k] != '\0',
            decreases v.len() - i,
        {
            if v[i] == '\0' {
                assert(command@[i as int] == '\0');
                assert(command@.contains('\0'));
                return Err(BashRunError::NulByte);
            }
            i = i + 1;
        }
        assert(!command@.contains('\0'));
        Ok(())
    }

    pub fn resolve_timeout_ms(&self, timeout_ms: Option<u64>) -> (r: Result<u64, BashRunError>)
        ensures
            r == spec_resolve_timeout(self.config, timeout_ms),
    {
        let t = match timeout_ms {
            Some(t) => t,
            None => self.config.timeout_ms,
        };
        if t == 0 {
            Err(BashRunError::ZeroTimeout)
        } else if t <= self.config.max_timeout_ms {
            Ok(t)
        } else {
            Ok(self.config.max_timeout_ms)
        }
    }

    /// Whether a canonical working directory lies under one of the roots,
    /// themselves given canonical.
    pub fn cwd_is_inside_allowed_root(cwd: &str, canonical_roots: &Vec<String>) -> (b: bool)
        ensures
            b == inside_some_root(cwd@, string_views(canonical_roots@)),
    {
        let mut i: usize = 0;
        while i < canonical_roots.len()
            invariant
                i <= canonical_roots@.len(),
                forall|k: int| 0 <= k < i ==> !path_starts_with(cwd@, canonical_roots@[k]@),
            decreases canonical_roots.len() - i,
        {
            if path_starts_with_exec(cwd, canonical_roots[i].as_str()) {
                assert(string_views(canonical_roots@)[i as int] == canonical_roots@[i as int]@);
                return true;
            }
            i = i + 1;
        }
        assert forall|k: int| 0 <= k < string_views(canonical_roots@).len() implies !path_starts_with(
            cwd@,
            #[trigger] string_views(canonical_roots@)[k],
        ) by {
            assert(string_views(canonical_roots@)[k] == canonical_roots@[k]@);
        }
        false
    }

    /// Refuses a working directory outside every root.
    pub fn check_cwd(cwd: &str, canonical_roots: &Vec<String>) -> (r: Result<(), BashRunError>)
        ensures
            r is Ok <==> inside_some_root(cwd@, string_views(canonical_roots@)),
            r matches Err(e) ==> e == (BashRunError::CwdOutsideRoots { cwd: e->cwd })
                && e->cwd@ == cwd@,
    {
        if Self::cwd_is_inside_allowed_root(cwd, canonical_roots) {
            Ok(())
        } else {
            Err(BashRunError::CwdOutsideRoots { cwd: String::from_str(cwd) })
        }
    }

    /// The output reported for a command that the user refused.
    pub fn denied_output(cwd: String, approval: Option<BashApprovalSummary>) -> (o: BashCommandOutput)
        ensures
            o.status == BashCommandStatus::Denied,
            o.exit_code is None,
            o.duration_ms == 0,
            o.cwd == cwd,
            o.stdout@ == Seq::<char>::empty(),
            o.stderr@ == Seq::<char>::empty(),
            !o.stdout_truncated,
            !o.stderr_truncated,
            o.approval == approval,
    {
        BashCommandOutput {
            status: BashCommandStatus::Denied,
            exit_code: None,
            duration_ms: 0,
            cwd,
            stdout: String::new(),
            stderr: String::new(),
            stdout_truncated: false,
            stderr_truncated: false,
            approval,
        }
    }
}

} // verus!
