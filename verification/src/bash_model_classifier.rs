//! Asking a model to judge a bash command: the request sent, and which
//! replies are acted on.  Sending the request and decoding the reply are
//! left to the caller.
use vstd::prelude::*;
use vstd::string::*;
use crate::api::{message_views, text_message, ChatCompletionRequest, ChatMessage};
use crate::bash_approval_gate::{model_accepts, spec_model_accepts, ModelRiskResponse};
use crate::bash_risk::BashRiskRequest;
use crate::context::budget::{json_string, json_string_literal};
use crate::text::{append_chars, append_str, decimal, decimal_chars, join, str_chars, string_from_chars, string_views};

verus! {

pub const CLASSIFIER_MODEL: &'static str = "deepseek-chat";

pub const CLASSIFIER_SYSTEM_PROMPT: &'static str = "You are a conservative bash command risk classifier. Return JSON only.";

pub const CLASSIFIER_INSTRUCTION: &'static str = "Classify only low-risk bash commands. Return strict JSON with risk, confidence, reason, and optional policy_candidate. Never label destructive, privileged, or remote script commands as low.";

/// The JSON text of a list of strings.
pub open spec fn json_string_array(items: Seq<Seq<char>>) -> Seq<char> {
    "["@ + join(items.map_values(|s: Seq<char>| json_string(s)), ","@) + "]"@
}

/// The command as put to the model: a JSON object of the command, its
/// working directory, the allowed roots, the timeout and the instruction.
pub open spec fn classifier_prompt(request: BashRiskRequest) -> Seq<char> {
    "{\"allowed_roots\":"@ + json_string_array(string_views(request.allowed_roots@))
        + ",\"command\":"@ + json_string(request.command@) + ",\"cwd\":"@ + json_string(
        request.cwd@,
    ) + ",\"instruction\":"@ + json_string(CLASSIFIER_INSTRUCTION@) + ",\"timeout_ms\":"@ + decimal(
        request.timeout_ms as nat,
    ) + "}"@
}

/// Judges commands with a model; a reply counts only when it says low risk
/// with at least the threshold's confidence (in thousandths).
pub struct ModelRiskClassifier {
    pub threshold_permille: u32,
}

impl ModelRiskClassifier {
    pub fn new(threshold_permille: u32) -> (c: Self)
        ensures
            c.threshold_permille == threshold_permille,
    {
        ModelRiskClassifier { threshold_permille }
    }

    /// The request for one command: the classifier's model, its system
    /// prompt and the command as a JSON user message; no tools, no thinking.
    pub fn request_for(&self, request: &BashRiskRequest) -> (r: ChatCompletionRequest)
        ensures
            r.model@ == CLASSIFIER_MODEL@,
            message_views(r.messages@) == seq![
                text_message("system"@, CLASSIFIER_SYSTEM_PROMPT@),
                text_message("user"@, classifier_prompt(*request)),
            ],
            r.tools is None,
            r.thinking is None,
            r.reasoning_effort is None,
            r.stream is None,
            r.stream_options is None,
    {
        let mut v = str_chars("{\"allowed_roots\":[");
        let ghost prefix = v@;
        let ghost items = string_views(request.allowed_roots@).map_values(|s: Seq<char>| json_string(s));
        let mut i: usize = 0;
        assert(items.take(0) =~= Seq::<Seq<char>>::empty());
        while i < request.allowed_roots.len()
            invariant
                i <= request.allowed_roots@.len(),
                items == string_views(request.allowed_roots@).map_values(|s: Seq<char>| json_string(s)),
                v@ == prefix + join(items.take(i as int), ","@),
            decreases request.allowed_roots.len() - i,
        {
            let ghost before = v@;
            proof {
                assert(items.take(i + 1).drop_last() =~= items.take(i as int));
                assert(items[i as int] == json_string(request.allowed_roots@[i as int]@));
            }
            if i > 0 {
                append_str(&mut v, ",");
            }
            append_str(&mut v, json_string_literal(request.allowed_roots[i].as_str()).as_str());
            proof {
                if i > 0 {
                    assert(v@ =~= before + ","@ + items[i as int]);
                } else {
                    assert(items.take(1) =~= seq![items[0]]);
                    assert(v@ =~= before + items[i as int]);
                }
            }
            i = i + 1;
        }
        assert(items.take(request.allowed_roots@.len() as int) =~= items);
        append_str(&mut v, "],\"command\":");
        append_str(&mut v, json_string_literal(request.command.as_str()).as_str());
        append_str(&mut v, ",\"cwd\":");
        append_str(&mut v, json_string_literal(request.cwd.as_str()).as_str());
        append_str(&mut v, ",\"instruction\":");
        append_str(&mut v, json_string_literal(CLASSIFIER_INSTRUCTION).as_str());
        append_str(&mut v, ",\"timeout_ms\":");
        append_chars(&mut v, decimal_chars(request.timeout_ms).as_slice());
        append_str(&mut v, "}");
        proof {
            reveal_strlit("{\"allowed_roots\":[");
            reveal_strlit("{\"allowed_roots\":");
            reveal_strlit("[");
            reveal_strlit("],\"command\":");
            reveal_strlit("]");
            reveal_strlit(",\"command\":");
        }
        assert(v@ =~= classifier_prompt(*request));
        let mut messages: Vec<ChatMessage> = Vec::new();
        messages.push(ChatMessage::system(String::from_str(CLASSIFIER_SYSTEM_PROMPT)));
        messages.push(ChatMessage::user(string_from_chars(v.as_slice())));
        assert(message_views(messages@) =~= seq![
            text_message("system"@, CLASSIFIER_SYSTEM_PROMPT@),
            text_message("user"@, classifier_prompt(*request)),
        ]);
        ChatCompletionRequest {
            model: String::from_str(CLASSIFIER_MODEL),
            messages,
            tools: None,
            thinking: None,
            reasoning_effort: None,
            stream: None,
            stream_options: None,
        }
    }

    /// The reply acted on: a parsed reply that is low risk with enough
    /// confidence, and nothing otherwise (also when the model gave none).
    pub fn accept(&self, parsed: Option<ModelRiskResponse>) -> (r: Option<ModelRiskResponse>)
        ensures
            match parsed {
                Some(p) => if spec_model_accepts(p, self.threshold_permille) {
                    r == Some(p)
                } else {
                    r is None
                },
                None => r is None,
            },
    {
        match parsed {
            Some(p) => if model_accepts(&p, self.threshold_permille) {
                Some(p)
            } else {
                None
            },
            None => None,
        }
    }
}

} // verus!
