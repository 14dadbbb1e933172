use sparrow_agent::bash_approval_gate::ModelRiskResponse;
use sparrow_agent::bash_model_classifier::ModelRiskClassifier;
use sparrow_agent::bash_risk::{BashRiskLevel, BashRiskRequest};
use sparrow_agent::debug::debug_enabled_from;
use sparrow_agent::frontend_assets::embedded_frontend_assets;
use sparrow_agent::tools::{
    format_search_response, search_request, weather_report, TavilyResult, TavilySearchResponse,
};

#[test]
fn search_results_are_formatted_with_answer_first() {
    let response = TavilySearchResponse {
        answer: Some("Paris".into()),
        results: vec![TavilyResult {
            title: "France".into(),
            url: "https://example.com".into(),
            content: "Capital is Paris.".into(),
        }],
    };
    assert_eq!(
        format_search_response(&response),
        "Paris\n\n**France**\nhttps://example.com\nCapital is Paris.\n\n"
    );
    let empty = TavilySearchResponse {
        answer: None,
        results: Vec::new(),
    };
    assert_eq!(format_search_response(&empty), "No results found.");
    let request = search_request("key", "q");
    assert_eq!(request.search_depth, "basic");
    assert_eq!(request.max_results, 5);
    assert!(request.include_answer);
}

#[test]
fn weather_is_always_sunny() {
    assert_eq!(
        weather_report("Oslo"),
        "The weather in Oslo is sunny with a high of 25°C."
    );
}

#[test]
fn debug_setting_is_parsed() {
    assert!(debug_enabled_from(Some("1")));
    assert!(debug_enabled_from(Some("yes")));
    assert!(!debug_enabled_from(Some("0")));
    assert!(!debug_enabled_from(Some("false")));
    assert!(!debug_enabled_from(Some("")));
    assert!(!debug_enabled_from(None));
    assert!(embedded_frontend_assets().is_empty());
}

#[test]
fn classifier_request_and_acceptance() {
    let classifier = ModelRiskClassifier::new(850);
    let request = classifier.request_for(&BashRiskRequest {
        command: "ls \"x\"".into(),
        cwd: "/w".into(),
        allowed_roots: vec!["/w".into(), "/v".into()],
        timeout_ms: 1_000,
    });
    assert_eq!(request.model, "deepseek-chat");
    assert_eq!(request.messages.len(), 2);
    let prompt: serde_json::Value =
        serde_json::from_str(request.messages[1].content.as_ref().unwrap()).unwrap();
    assert_eq!(prompt["command"], "ls \"x\"");
    assert_eq!(prompt["allowed_roots"][1], "/v");
    assert_eq!(prompt["timeout_ms"], 1_000);
    let low = ModelRiskResponse {
        risk: BashRiskLevel::Low,
        confidence_permille: 900,
        reason: "reads".into(),
        policy_candidate: None,
    };
    assert!(classifier.accept(Some(low.clone())).is_some());
    let unsure = ModelRiskResponse {
        confidence_permille: 500,
        ..low.clone()
    };
    assert!(classifier.accept(Some(unsure)).is_none());
    let high = ModelRiskResponse {
        risk: BashRiskLevel::High,
        ..low
    };
    assert!(classifier.accept(Some(high)).is_none());
    assert!(classifier.accept(None).is_none());
}
