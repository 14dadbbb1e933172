use sparrow_agent::api::{CompletionTokensDetails, PromptTokensDetails, Usage};
use sparrow_agent::context_usage::{
    format_token_count, model_context_window_tokens, render_progress_bar, ContextUsage,
    ContextUsageColor,
};

fn strip_ansi_codes(input: &str) -> String {
    let mut output = String::new();
    let mut chars = input.chars().peekable();

    while let Some(ch) = chars.next() {
        if ch == '\x1b' && chars.peek() == Some(&'[') {
            chars.next();
            for ch in chars.by_ref() {
                if ch.is_ascii_alphabetic() {
                    break;
                }
            }
            continue;
        }

        output.push(ch);
    }

    output
}

#[test]
fn formats_token_counts_with_group_separators() {
    assert_eq!(format_token_count(0), "0");
    assert_eq!(format_token_count(42), "42");
    assert_eq!(format_token_count(1_234), "1,234");
    assert_eq!(format_token_count(1_000_000), "1,000,000");
}

#[test]
fn knows_deepseek_v4_context_windows() {
    assert_eq!(
        model_context_window_tokens("deepseek-v4-flash"),
        Some(1_000_000)
    );
    assert_eq!(
        model_context_window_tokens("deepseek-v4-pro"),
        Some(1_000_000)
    );
    assert_eq!(model_context_window_tokens("custom-model"), None);
}

#[test]
fn renders_context_usage_line_with_progress_bar() {
    let context_usage = ContextUsage {
        used_tokens: 250_000,
        total_tokens: Some(1_000_000),
    };

    assert_eq!(
        strip_ansi_codes(&context_usage.render_line()),
        "context> [=======-----------------] 250,000 / 1,000,000 tokens (25.00%)"
    );
}

#[test]
fn renders_unknown_context_total_with_empty_progress_bar() {
    assert_eq!(
        strip_ansi_codes(&render_progress_bar(12_345, None)),
        "[------------------------]"
    );
}

#[test]
fn selects_context_usage_colors_by_threshold() {
    assert_eq!(
        ContextUsageColor::for_usage(399_999, 1_000_000),
        ContextUsageColor::Green
    );
    assert_eq!(
        ContextUsageColor::for_usage(400_000, 1_000_000),
        ContextUsageColor::Yellow
    );
    assert_eq!(
        ContextUsageColor::for_usage(700_000, 1_000_000),
        ContextUsageColor::Yellow
    );
    assert_eq!(
        ContextUsageColor::for_usage(700_001, 1_000_000),
        ContextUsageColor::Red
    );
}

#[test]
fn renders_unknown_total_usage_line() {
    let usage = ContextUsage {
        used_tokens: 1_234,
        total_tokens: None,
    };
    assert_eq!(
        strip_ansi_codes(&usage.render_line()),
        "context> [------------------------] 1,234 / unknown tokens"
    );
}

#[test]
fn percent_used_rounds_to_hundredths() {
    let usage = ContextUsage {
        used_tokens: 1,
        total_tokens: Some(3),
    };
    assert_eq!(usage.percent_used(3), 3333);
    let usage = ContextUsage {
        used_tokens: 2,
        total_tokens: Some(3),
    };
    assert_eq!(usage.percent_used(3), 6667);
    assert_eq!(usage.percent_used(0), 0);
}

#[test]
fn full_window_renders_full_bar() {
    let usage = ContextUsage {
        used_tokens: 1_000_000,
        total_tokens: Some(1_000_000),
    };
    assert_eq!(
        strip_ansi_codes(&usage.render_line()),
        "context> [========================] 1,000,000 / 1,000,000 tokens (100.00%)"
    );
}

#[test]
fn for_model_starts_empty_and_usage_updates_used_tokens() {
    let mut usage = ContextUsage::for_model("deepseek-v4-pro");
    assert_eq!(usage.used_tokens, 0);
    assert_eq!(usage.total_tokens, Some(1_000_000));
    let reported = Usage {
        prompt_tokens: 4_000,
        completion_tokens: 321,
        total_tokens: 4_321,
        prompt_tokens_details: PromptTokensDetails { cached_tokens: 0 },
        completion_tokens_details: CompletionTokensDetails { reasoning_tokens: 0 },
        prompt_cache_hit_tokens: 0,
        prompt_cache_miss_tokens: 4_000,
    };
    usage.update_from_usage(&reported);
    assert_eq!(usage.used_tokens, 4_321);
    assert_eq!(usage.total_tokens, Some(1_000_000));
    assert_eq!(ContextUsage::for_model("other").total_tokens, None);
}
