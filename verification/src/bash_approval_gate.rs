//! The approval gate in front of the bash tool.
//!
//! Every command is first classified by the local rules.  Blocked commands
//! are refused in every mode.  Otherwise the approval mode decides: `never`
//! approves, `always` asks the user, and `smart` approves low-risk commands,
//! commands that a remembered policy covers, and medium-risk commands that a
//! model judges low risk; it asks the user about everything else.
//!
//! Consulting the model is outside work: `decide` answers
//! `GateStep::ConsultModel` when the model has to be asked, and the caller
//! hands its reply to `finish_with_model`.
use vstd::prelude::*;
use vstd::string::*;
use crate::bash_approval_policy::{
    BashApprovalPolicy, BashApprovalPolicyMatcher, BashApprovalPolicyStore, MILLIS_PER_DAY,
    PolicyModel, after_hit, clone_strings, first_applying, lemma_candidate_matches_own_command,
    lemma_path_starts_with_self, policy_applies, policy_views,
};
use crate::bash_risk::{
    BashRiskAssessor, BashRiskDecision, BashRiskLevel, BashRiskRequest, DecisionModel,
    NormalizedModel, PolicyCandidate, basename, lemma_classify_shape, model_of, spec_classify,
    spec_parse, confidence_percent,
};
use crate::config::{BashApprovalMode, BashConfig, spec_mode_str};
use crate::text::{str_is_blank, string_views, trim};

verus! {

/// What an approval decision reports.
#[derive(Debug, Clone)]
pub struct BashApprovalSummary {
    pub mode: String,
    pub risk: String,
    pub approved_by: String,
    pub policy_id: Option<String>,
    pub reason: String,
}

pub struct SummaryModel {
    pub mode: Seq<char>,
    pub risk: Seq<char>,
    pub approved_by: Seq<char>,
    pub policy_id: Option<Seq<char>>,
    pub reason: Seq<char>,
}

pub open spec fn option_view(o: Option<String>) -> Option<Seq<char>> {
    match o {
        Some(s) => Some(s@),
        None => None,
    }
}

impl View for BashApprovalSummary {
    type V = SummaryModel;

    open spec fn view(&self) -> SummaryModel {
        SummaryModel {
            mode: self.mode@,
            risk: self.risk@,
            approved_by: self.approved_by@,
            policy_id: option_view(self.policy_id),
            reason: self.reason@,
        }
    }
}

#[derive(Debug, Clone)]
pub enum BashApprovalAction {
    Approved,
    RequiresConfirmation { can_remember_policy: bool },
    Blocked { reason: String },
}

pub enum ActionModel {
    Approved,
    RequiresConfirmation { can_remember_policy: bool },
    Blocked { reason: Seq<char> },
}

impl View for BashApprovalAction {
    type V = ActionModel;

    open spec fn view(&self) -> ActionModel {
        match self {
            BashApprovalAction::Approved => ActionModel::Approved,
            BashApprovalAction::RequiresConfirmation { can_remember_policy } =>
                ActionModel::RequiresConfirmation { can_remember_policy: *can_remember_policy },
            BashApprovalAction::Blocked { reason } => ActionModel::Blocked { reason: reason@ },
        }
    }
}

#[derive(Debug, Clone)]
pub struct BashGateDecision {
    pub risk: BashRiskLevel,
    pub action: BashApprovalAction,
    pub summary: Option<BashApprovalSummary>,
    pub risk_decision: BashRiskDecision,
}

pub struct GateDecisionModel {
    pub risk: BashRiskLevel,
    pub action: ActionModel,
    pub summary: Option<SummaryModel>,
    pub decision: DecisionModel,
}

impl View for BashGateDecision {
    type V = GateDecisionModel;

    open spec fn view(&self) -> GateDecisionModel {
        GateDecisionModel {
            risk: self.risk,
            action: self.action@,
            summary: match self.summary {
                Some(s) => Some(s@),
                None => None,
            },
            decision: model_of(self.risk_decision),
        }
    }
}

/// A model's judgement of one command, as parsed from its reply.  The
/// confidence is in thousandths.
#[derive(Debug, Clone)]
pub struct ModelRiskResponse {
    pub risk: BashRiskLevel,
    pub confidence_permille: u32,
    pub reason: String,
    pub policy_candidate: Option<PolicyCandidate>,
}

/// Either a decision, or a request for the model's judgement of `request`
/// before a decision can be made.
#[derive(Debug)]
pub enum GateStep {
    Decided(BashGateDecision),
    ConsultModel { request: BashRiskRequest, risk_decision: BashRiskDecision },
}

pub open spec fn spec_risk_label(risk: BashRiskLevel) -> Seq<char> {
    match risk {
        BashRiskLevel::Low => "low"@,
        BashRiskLevel::Medium => "medium"@,
        BashRiskLevel::High => "high"@,
        BashRiskLevel::Blocked => "blocked"@,
    }
}

pub open spec fn summary_model(
    mode: BashApprovalMode,
    risk: BashRiskLevel,
    approved_by: Seq<char>,
    policy_id: Option<Seq<char>>,
    reason: Seq<char>,
) -> SummaryModel {
    SummaryModel {
        mode: spec_mode_str(mode),
        risk: spec_risk_label(risk),
        approved_by,
        policy_id,
        reason,
    }
}

pub open spec fn blocked_model(mode: BashApprovalMode, d: DecisionModel) -> GateDecisionModel {
    GateDecisionModel {
        risk: BashRiskLevel::Blocked,
        action: ActionModel::Blocked { reason: d.reason },
        summary: Some(summary_model(mode, BashRiskLevel::Blocked, "blocked"@, None, d.reason)),
        decision: d,
    }
}

/// A remembered policy may be offered only for a medium-risk command that
/// has a policy candidate.
pub open spec fn confirmation_model(mode: BashApprovalMode, d: DecisionModel) -> GateDecisionModel {
    GateDecisionModel {
        risk: d.risk,
        action: ActionModel::RequiresConfirmation {
            can_remember_policy: d.risk == BashRiskLevel::Medium && d.candidate is Some,
        },
        summary: Some(summary_model(mode, d.risk, "requires_confirmation"@, None, d.reason)),
        decision: d,
    }
}

pub open spec fn approved_model(
    mode: BashApprovalMode,
    risk: BashRiskLevel,
    approved_by: Seq<char>,
    policy_id: Option<Seq<char>>,
    reason: Seq<char>,
    d: DecisionModel,
) -> GateDecisionModel {
    GateDecisionModel {
        risk,
        action: ActionModel::Approved,
        summary: Some(summary_model(mode, risk, approved_by, policy_id, reason)),
        decision: d,
    }
}

/// The policy store is consulted in smart mode for commands that are
/// neither blocked nor high risk.
pub open spec fn cache_consulted(mode: BashApprovalMode, d: DecisionModel) -> bool {
    &&& d.risk != BashRiskLevel::Blocked
    &&& mode == BashApprovalMode::Smart
    &&& d.risk != BashRiskLevel::High
}

/// The approval answer for the local decision `d`, given the policy that the
/// store found (`cached`).  `None` means that the model must be consulted.
pub open spec fn gate_outcome(
    mode: BashApprovalMode,
    has_model: bool,
    d: DecisionModel,
    cached: Option<PolicyModel>,
) -> Option<GateDecisionModel> {
    if d.risk == BashRiskLevel::Blocked {
        Some(blocked_model(mode, d))
    } else if mode == BashApprovalMode::NeverPrompt {
        Some(approved_model(mode, d.risk, "never_prompt"@, None, d.reason, d))
    } else if mode == BashApprovalMode::AlwaysPrompt {
        Some(confirmation_model(mode, d))
    } else if cached is Some {
        Some(
            approved_model(
                mode,
                BashRiskLevel::Low,
                "policy_cache"@,
                Some(cached->0.id),
                cached->0.reason,
                d,
            ),
        )
    } else if d.risk == BashRiskLevel::Low {
        Some(approved_model(mode, BashRiskLevel::Low, "local_rule"@, None, d.reason, d))
    } else if d.risk == BashRiskLevel::Medium && has_model {
        None
    } else {
        Some(confirmation_model(mode, d))
    }
}

/// The index of the policy that the store finds for a command, when it is
/// consulted at all.
pub open spec fn cache_hit(
    mode: BashApprovalMode,
    policies: Seq<BashApprovalPolicy>,
    command: Seq<char>,
    cwd: Seq<char>,
    now_ms: i64,
) -> Option<int> {
    let n = spec_parse(command);
    if cache_consulted(mode, spec_classify(n)) {
        first_applying(policy_views(policies), cwd, now_ms, n)
    } else {
        None
    }
}

/// The policy that the store finds for a command, with its hit recorded.
pub open spec fn cached_policy(
    mode: BashApprovalMode,
    policies: Seq<BashApprovalPolicy>,
    command: Seq<char>,
    cwd: Seq<char>,
    now_ms: i64,
) -> Option<PolicyModel> {
    match cache_hit(mode, policies, command, cwd, now_ms) {
        Some(i) => Some(after_hit(policies[i]@, now_ms)),
        None => None,
    }
}

/// What `decide` answers for `command` in `cwd` at `now_ms`, given the
/// store's policies; `None` means that the model must be consulted.
pub open spec fn decide_outcome(
    mode: BashApprovalMode,
    has_model: bool,
    policies: Seq<BashApprovalPolicy>,
    command: Seq<char>,
    cwd: Seq<char>,
    now_ms: i64,
) -> Option<GateDecisionModel> {
    gate_outcome(
        mode,
        has_model,
        spec_classify(spec_parse(command)),
        cached_policy(mode, policies, command, cwd, now_ms),
    )
}

/// `after` is `before` with a hit recorded on the policy at `i`.
pub open spec fn hit_recorded(
    before: Seq<BashApprovalPolicy>,
    after: Seq<BashApprovalPolicy>,
    i: int,
    now_ms: i64,
) -> bool {
    &&& 0 <= i < before.len()
    &&& after.len() == before.len()
    &&& after[i]@ == after_hit(before[i]@, now_ms)
    &&& forall|k: int| 0 <= k < before.len() && k != i ==> #[trigger] after[k] == before[k]
}

/// A model reply is acted on when it says low risk with at least the
/// configured confidence.
pub open spec fn spec_model_accepts(response: ModelRiskResponse, threshold_permille: u32) -> bool {
    response.risk == BashRiskLevel::Low && response.confidence_permille >= threshold_permille
}

/// `p` is a fresh low-risk policy built from `candidate` for `cwd`.
pub open spec fn fresh_policy(
    p: PolicyModel,
    candidate: PolicyCandidate,
    cwd: Seq<char>,
    source: Seq<char>,
    confidence_permille: u32,
    reason: Seq<char>,
    expires_at_ms: int,
) -> bool {
    &&& p.id.len() == 33
    &&& p.id.subrange(0, 7) == "policy_"@
    &&& p.matcher == candidate@
    &&& p.cwd_scope == cwd
    &&& p.risk == BashRiskLevel::Low
    &&& p.source == source
    &&& p.confidence_permille == confidence_permille
    &&& p.reason == reason
    &&& p.expires_at_ms == expires_at_ms
    &&& p.hit_count == 0
    &&& p.last_hit_at_ms is None
}

/// Whether a model reply is acted on.
pub fn model_accepts(response: &ModelRiskResponse, threshold_permille: u32) -> (r: bool)
    ensures
        r == spec_model_accepts(*response, threshold_permille),
{
    response.risk == BashRiskLevel::Low && response.confidence_permille >= threshold_permille
}

fn risk_label(risk: BashRiskLevel) -> (s: &'static str)
    ensures
        s@ == spec_risk_label(risk),
{
    match risk {
        BashRiskLevel::Low => "low",
        BashRiskLevel::Medium => "medium",
        BashRiskLevel::High => "high",
        BashRiskLevel::Blocked => "blocked",
    }
}

fn summary(
    mode: BashApprovalMode,
    risk: BashRiskLevel,
    approved_by: &str,
    policy_id: Option<String>,
    reason: String,
) -> (s: BashApprovalSummary)
    ensures
        s@ == summary_model(mode, risk, approved_by@, option_view(policy_id), reason@),
{
    BashApprovalSummary {
        mode: String::from_str(mode.as_str()),
        risk: String::from_str(risk_label(risk)),
        approved_by: String::from_str(approved_by),
        policy_id,
        reason,
    }
}

pub struct BashApprovalGate {
    pub config: BashConfig,
    pub assessor: BashRiskAssessor,
    pub store: BashApprovalPolicyStore,
    pub has_model: bool,
}

impl BashApprovalGate {
    /// A gate over a loaded policy store.  A model is consulted only when an
    /// API key that is not blank was given.
    pub fn new(config: BashConfig, store: BashApprovalPolicyStore, api_key: Option<String>) -> (g:
        Self)
        ensures
            g.config == config,
            g.store == store,
            g.has_model == (api_key matches Some(k) && trim(k@).len() > 0),
    {
        let has_model = match &api_key {
            Some(key) => !str_is_blank(key.as_str()),
            None => false,
        };
        BashApprovalGate { config, assessor: BashRiskAssessor::new(), store, has_model }
    }

    fn blocked(&self, risk_decision: BashRiskDecision) -> (g: BashGateDecision)
        ensures
            g@ == blocked_model(self.config.approval_mode, model_of(risk_decision)),
            g.risk_decision == risk_decision,
    {
        let reason = risk_decision.reason.clone();
        let s = summary(
            self.config.approval_mode,
            BashRiskLevel::Blocked,
            "blocked",
            None,
            risk_decision.reason.clone(),
        );
        BashGateDecision {
            risk: BashRiskLevel::Blocked,
            action: BashApprovalAction::Blocked { reason },
            summary: Some(s),
            risk_decision,
        }
    }

    fn requires_confirmation(&self, risk_decision: BashRiskDecision) -> (g: BashGateDecision)
        ensures
            g@ == confirmation_model(self.config.approval_mode, model_of(risk_decision)),
            g.risk_decision == risk_decision,
    {
        let can_remember_policy = risk_decision.risk == BashRiskLevel::Medium
            && risk_decision.policy_candidate.is_some();
        let s = summary(
            self.config.approval_mode,
            risk_decision.risk,
            "requires_confirmation",
            None,
            risk_decision.reason.clone(),
        );
        BashGateDecision {
            risk: risk_decision.risk,
            action: BashApprovalAction::RequiresConfirmation { can_remember_policy },
            summary: Some(s),
            risk_decision,
        }
    }

    fn approved(
        &self,
        risk: BashRiskLevel,
        approved_by: &str,
        policy_id: Option<String>,
        reason: String,
        risk_decision: BashRiskDecision,
    ) -> (g: BashGateDecision)
        ensures
            g@ == approved_model(
                self.config.approval_mode,
                risk,
                approved_by@,
                option_view(policy_id),
                reason@,
                model_of(risk_decision),
            ),
            g.risk_decision == risk_decision,
    {
        let s = summary(self.config.approval_mode, risk, approved_by, policy_id, reason);
        BashGateDecision {
            risk,
            action: BashApprovalAction::Approved,
            summary: Some(s),
            risk_decision,
        }
    }

    fn request_for(&self, command: &str, cwd: &str, timeout_ms: u64) -> (r: BashRiskRequest)
        ensures
            r.command@ == command@,
            r.cwd@ == cwd@,
            string_views(r.allowed_roots@) == string_views(self.config.roots@),
            r.timeout_ms == timeout_ms,
    {
        BashRiskRequest {
            command: String::from_str(command),
            cwd: String::from_str(cwd),
            allowed_roots: clone_strings(&self.config.roots),
            timeout_ms,
        }
    }

    /// Decides on one command in `cwd` at time `now_ms`, or asks for the
    /// model's judgement.  A policy that the store finds has a hit recorded.
    pub fn decide(&mut self, command: &str, cwd: &str, timeout_ms: u64, now_ms: i64) -> (step:
        GateStep)
        ensures
            final(self).config == old(self).config,
            final(self).has_model == old(self).has_model,
            final(self).store.path == old(self).store.path,
            final(self).store.ttl_days == old(self).store.ttl_days,
            ({
                let n = spec_parse(command@);
                let d = spec_classify(n);
                let mode = old(self).config.approval_mode;
                let hit = cache_hit(mode, old(self).store.policies@, command@, cwd@, now_ms);
                let outcome = decide_outcome(
                    mode,
                    old(self).has_model,
                    old(self).store.policies@,
                    command@,
                    cwd@,
                    now_ms,
                );
                &&& match hit {
                    Some(i) => hit_recorded(
                        old(self).store.policies@,
                        final(self).store.policies@,
                        i,
                        now_ms,
                    ),
                    None => final(self).store.policies@ == old(self).store.policies@,
                }
                &&& match step {
                    GateStep::Decided(g) => {
                        &&& outcome == Some(g@)
                        &&& g.risk_decision.normalized@ == n
                        &&& g.risk_decision.confidence_percent == confidence_percent(g.risk_decision.risk)
                    },
                    GateStep::ConsultModel { request, risk_decision } => {
                        &&& outcome is None
                        &&& model_of(risk_decision) == d
                        &&& risk_decision.confidence_percent == confidence_percent(risk_decision.risk)
                        &&& risk_decision.normalized@ == n
                        &&& request.command@ == command@
                        &&& request.cwd@ == cwd@
                        &&& string_views(request.allowed_roots@) == string_views(
                            old(self).config.roots@,
                        )
                        &&& request.timeout_ms == timeout_ms
                    },
                }
            }),
    {
        let ghost n = spec_parse(command@);
        let request = self.request_for(command, cwd, timeout_ms);
        let risk_decision = self.assessor.classify(request);
        if risk_decision.risk == BashRiskLevel::Blocked {
            return GateStep::Decided(self.blocked(risk_decision));
        }
        if self.config.approval_mode == BashApprovalMode::NeverPrompt {
            let reason = risk_decision.reason.clone();
            let risk = risk_decision.risk;
            return GateStep::Decided(self.approved(risk, "never_prompt", None, reason, risk_decision));
        }
        if self.config.approval_mode == BashApprovalMode::AlwaysPrompt {
            return GateStep::Decided(self.requires_confirmation(risk_decision));
        }
        if risk_decision.risk != BashRiskLevel::High {
            let found = self.store.find_matching_low_risk_policy(command, cwd, now_ms);
            match found {
                Some(policy) => {
                    let hard_check = self.assessor.classify(self.request_for(command, cwd, timeout_ms));
                    if hard_check.risk == BashRiskLevel::High || hard_check.risk == BashRiskLevel::Blocked {
                        return GateStep::Decided(self.requires_confirmation(hard_check));
                    }
                    return GateStep::Decided(
                        self.approved(
                            BashRiskLevel::Low,
                            "policy_cache",
                            Some(policy.id),
                            policy.reason,
                            risk_decision,
                        ),
                    );
                },
                None => {},
            }
        }
        match risk_decision.risk {
            BashRiskLevel::Low => {
                let reason = risk_decision.reason.clone();
                GateStep::Decided(
                    self.approved(BashRiskLevel::Low, "local_rule", None, reason, risk_decision),
                )
            },
            BashRiskLevel::Medium => {
                if self.has_model {
                    GateStep::ConsultModel {
                        request: self.request_for(command, cwd, timeout_ms),
                        risk_decision,
                    }
                } else {
                    GateStep::Decided(self.requires_confirmation(risk_decision))
                }
            },
            _ => GateStep::Decided(self.requires_confirmation(risk_decision)),
        }
    }

    /// Completes a decision that waited for the model.  `response` is the
    /// model's parsed reply, `None` when it gave none.  An accepted reply
    /// approves the command and, when it carries a policy candidate, adds a
    /// policy for `cwd` that expires after the store's time to live.
    pub fn finish_with_model(
        &mut self,
        cwd: &str,
        risk_decision: BashRiskDecision,
        response: Option<ModelRiskResponse>,
        now_ms: i64,
    ) -> (g: BashGateDecision)
        requires
            0 <= now_ms as int + old(self).store.ttl_days as int * MILLIS_PER_DAY <= i64::MAX,
        ensures
            final(self).config == old(self).config,
            final(self).has_model == old(self).has_model,
            final(self).store.path == old(self).store.path,
            final(self).store.ttl_days == old(self).store.ttl_days,
            g.risk_decision == risk_decision,
            ({
                let mode = old(self).config.approval_mode;
                let d = model_of(risk_decision);
                let threshold = old(self).config.model_low_risk_threshold_permille;
                let expiry = now_ms as int + old(self).store.ttl_days as int * MILLIS_PER_DAY;
                match response {
                    Some(resp) => if spec_model_accepts(resp, threshold) {
                        match resp.policy_candidate {
                            Some(c) => {
                                let p = final(self).store.policies@.last();
                                &&& final(self).store.policies@.len() == old(
                                    self,
                                ).store.policies@.len() + 1
                                &&& final(self).store.policies@.drop_last() == old(
                                    self,
                                ).store.policies@
                                &&& fresh_policy(
                                    p@,
                                    c,
                                    cwd@,
                                    "model"@,
                                    resp.confidence_permille,
                                    resp.reason@,
                                    expiry,
                                )
                                &&& g@ == approved_model(
                                    mode,
                                    BashRiskLevel::Low,
                                    "model"@,
                                    Some(p.id@),
                                    resp.reason@,
                                    d,
                                )
                            },
                            None => {
                                &&& final(self).store.policies@ == old(self).store.policies@
                                &&& g@ == approved_model(
                                    mode,
                                    BashRiskLevel::Low,
                                    "model"@,
                                    None,
                                    resp.reason@,
                                    d,
                                )
                            },
                        }
                    } else {
                        &&& final(self).store.policies@ == old(self).store.policies@
                        &&& g@ == confirmation_model(mode, d)
                    },
                    None => {
                        &&& final(self).store.policies@ == old(self).store.policies@
                        &&& g@ == confirmation_model(mode, d)
                    },
                }
            }),
    {
        match response {
            Some(resp) => {
                if model_accepts(&resp, self.config.model_low_risk_threshold_permille) {
                    let policy_id = match &resp.policy_candidate {
                        Some(candidate) => {
                            let matcher = BashApprovalPolicyMatcher::from_candidate(candidate);
                            let expiry = self.store.default_expiry(now_ms);
                            let policy = BashApprovalPolicy::new(
                                matcher,
                                String::from_str(cwd),
                                BashRiskLevel::Low,
                                String::from_str("model"),
                                resp.confidence_permille,
                                resp.reason.clone(),
                                expiry,
                                now_ms,
                            );
                            let ghost before = self.store.policies@;
                            let id = self.store.add_policy(policy);
                            assert(self.store.policies@.drop_last() =~= before);
                            Some(id)
                        },
                        None => None,
                    };
                    self.approved(BashRiskLevel::Low, "model", policy_id, resp.reason, risk_decision)
                } else {
                    self.requires_confirmation(risk_decision)
                }
            },
            None => self.requires_confirmation(risk_decision),
        }
    }

    /// Remembers the shape of a confirmed command as a policy for `cwd`.
    /// Returns the new policy's id, or `None` when the decision carries no
    /// policy candidate.
    pub fn remember_policy(&mut self, decision: &BashGateDecision, cwd: &str, now_ms: i64) -> (r:
        Option<String>)
        requires
            0 <= now_ms as int + old(self).store.ttl_days as int * MILLIS_PER_DAY <= i64::MAX,
            decision.risk_decision.confidence_percent <= 100,
        ensures
            final(self).config == old(self).config,
            final(self).has_model == old(self).has_model,
            final(self).store.path == old(self).store.path,
            final(self).store.ttl_days == old(self).store.ttl_days,
            match decision.risk_decision.policy_candidate {
                None => r is None && final(self).store.policies@ == old(self).store.policies@,
                Some(c) => {
                    let p = final(self).store.policies@.last();
                    &&& final(self).store.policies@.len() == old(self).store.policies@.len() + 1
                    &&& final(self).store.policies@.drop_last() == old(self).store.policies@
                    &&& fresh_policy(
                        p@,
                        c,
                        cwd@,
                        "user_policy"@,
                        (decision.risk_decision.confidence_percent * 10) as u32,
                        decision.risk_decision.reason@,
                        now_ms as int + old(self).store.ttl_days as int * MILLIS_PER_DAY,
                    )
                    &&& r matches Some(id) && id@ == p.id@
                },
            },
    {
        match &decision.risk_decision.policy_candidate {
            None => None,
            Some(candidate) => {
                let expiry = self.store.default_expiry(now_ms);
                let policy = BashApprovalPolicy::new(
                    BashApprovalPolicyMatcher::from_candidate(candidate),
                    String::from_str(cwd),
                    BashRiskLevel::Low,
                    String::from_str("user_policy"),
                    decision.risk_decision.confidence_percent * 10,
                    decision.risk_decision.reason.clone(),
                    expiry,
                    now_ms,
                );
                let ghost before = self.store.policies@;
                let id = self.store.add_policy(policy);
                assert(self.store.policies@.drop_last() =~= before);
                Some(id)
            },
        }
    }
}

// ---------------------------------------------------------------------------
// Laws.
// ---------------------------------------------------------------------------

/// A blocked command is refused in every approval mode, with or without a
/// model, whatever policies the store holds.
pub proof fn lemma_blocked_is_always_refused(
    mode: BashApprovalMode,
    has_model: bool,
    policies: Seq<BashApprovalPolicy>,
    command: Seq<char>,
    cwd: Seq<char>,
    now_ms: i64,
)
    requires
        spec_classify(spec_parse(command)).risk == BashRiskLevel::Blocked,
    ensures
        decide_outcome(mode, has_model, policies, command, cwd, now_ms) matches Some(g) && g.risk
            == BashRiskLevel::Blocked && g.action is Blocked,
{
}

/// A command that contains a NUL character is refused in every mode.
pub proof fn lemma_nul_command_is_refused(
    mode: BashApprovalMode,
    has_model: bool,
    policies: Seq<BashApprovalPolicy>,
    command: Seq<char>,
    cwd: Seq<char>,
    now_ms: i64,
)
    requires
        command.contains('\0'),
    ensures
        decide_outcome(mode, has_model, policies, command, cwd, now_ms) matches Some(g) && g.action is Blocked,
{
}

/// Outside `never` mode a high-risk command always needs the user's
/// confirmation, and no policy can be remembered for it.
pub proof fn lemma_high_risk_needs_confirmation(
    mode: BashApprovalMode,
    has_model: bool,
    policies: Seq<BashApprovalPolicy>,
    command: Seq<char>,
    cwd: Seq<char>,
    now_ms: i64,
)
    requires
        spec_classify(spec_parse(command)).risk == BashRiskLevel::High,
        mode != BashApprovalMode::NeverPrompt,
    ensures
        decide_outcome(mode, has_model, policies, command, cwd, now_ms) == Some(
            confirmation_model(mode, spec_classify(spec_parse(command))),
        ),
        confirmation_model(mode, spec_classify(spec_parse(command))).action
            == (ActionModel::RequiresConfirmation { can_remember_policy: false }),
{
}

/// In `always` mode nothing is approved without the user.
pub proof fn lemma_always_prompt_never_approves(
    has_model: bool,
    policies: Seq<BashApprovalPolicy>,
    command: Seq<char>,
    cwd: Seq<char>,
    now_ms: i64,
)
    ensures
        decide_outcome(BashApprovalMode::AlwaysPrompt, has_model, policies, command, cwd, now_ms)
            matches Some(g) && !(g.action is Approved),
{
}

/// In `never` mode every command that is not blocked is approved, keeping
/// its local risk.
pub proof fn lemma_never_prompt_approves_unblocked(
    has_model: bool,
    policies: Seq<BashApprovalPolicy>,
    command: Seq<char>,
    cwd: Seq<char>,
    now_ms: i64,
)
    requires
        spec_classify(spec_parse(command)).risk != BashRiskLevel::Blocked,
    ensures
        decide_outcome(BashApprovalMode::NeverPrompt, has_model, policies, command, cwd, now_ms)
            matches Some(g) && g.action is Approved && g.risk == spec_classify(
            spec_parse(command),
        ).risk,
{
}

/// Once a policy built from a command's own candidate is remembered for
/// `cwd`, smart mode approves that command in `cwd` from the policy store
/// until the policy expires.  (The program must be named without a
/// directory and the command must not contain `|`: a low-risk candidate
/// names the program's base name, and a matcher of a program's shape
/// requires a command without a pipe.)
pub proof fn lemma_remembered_policy_approves(
    has_model: bool,
    policies: Seq<BashApprovalPolicy>,
    p: BashApprovalPolicy,
    command: Seq<char>,
    cwd: Seq<char>,
    now_ms: i64,
)
    requires
        spec_classify(spec_parse(command)).candidate == Some(p@.matcher),
        p.risk == BashRiskLevel::Low,
        p.cwd_scope@ == cwd,
        p.expires_at_ms > now_ms,
        !spec_parse(command).has_pipe,
        spec_parse(command).commands.len() > 0 ==> basename(spec_parse(command).commands[0].program)
            == spec_parse(command).commands[0].program,
    ensures
        decide_outcome(BashApprovalMode::Smart, has_model, policies.push(p), command, cwd, now_ms)
            matches Some(g) && g.action is Approved && g.summary is Some
            && g.summary->0.approved_by == "policy_cache"@,
{
    let n = spec_parse(command);
    let ps = policy_views(policies.push(p));
    lemma_candidate_matches_own_command(command);
    lemma_path_starts_with_self(cwd);
    assert(ps.last() == p@);
    assert(policy_applies(ps.last(), cwd, now_ms, n));
    assert(ps.drop_last() =~= policy_views(policies));
    lemma_classify_shape(n);
}

} // verus!
