use select2explain::ai_pipeline::{build_prompt_context, build_user_message, MAX_PROMPT_CONTEXT_CHARS};

#[test]
fn blank_window_gives_empty_context() {
    let (context, strategy) = build_prompt_context("word", "  \n\t ");
    assert_eq!(context, "");
    assert_eq!(strategy, "empty");
}

#[test]
fn short_window_is_quoted_whole() {
    let (context, strategy) = build_prompt_context("fox", "the quick brown fox");
    assert_eq!(context, "the quick brown fox");
    assert_eq!(strategy, "full-window");
}

#[test]
fn long_window_is_cut_around_the_selection() {
    let window = format!("{}NEEDLE{}", "a".repeat(5000), "b".repeat(5000));
    let (context, strategy) = build_prompt_context("  NEEDLE ", &window);
    assert_eq!(strategy, "selected-window");
    assert!(context.starts_with("...[context omitted]\n"));
    assert!(context.ends_with("\n...[context omitted]"));
    assert!(context.contains("NEEDLE"));
    let inner = context
        .trim_start_matches("...[context omitted]\n")
        .trim_end_matches("\n...[context omitted]");
    assert_eq!(inner.chars().count(), MAX_PROMPT_CONTEXT_CHARS);
    // budget 3594 split 1797 before and after the six selected characters
    assert_eq!(inner, format!("{}NEEDLE{}", "a".repeat(1797), "b".repeat(1797)));
}

#[test]
fn long_window_without_selection_keeps_its_start() {
    let window = "x".repeat(4000);
    let (context, strategy) = build_prompt_context("absent", &window);
    assert_eq!(strategy, "leading-window");
    assert_eq!(context, format!("{}\n...[context omitted]", "x".repeat(3600)));
}

#[test]
fn user_message_mentions_missing_context() {
    assert_eq!(
        build_user_message("hi", ""),
        "Selected text: \"hi\"\n\nNo additional context is available."
    );
    assert_eq!(
        build_user_message("hi", "ctx"),
        "Selected text: \"hi\"\n\nFull context from the window:\nctx"
    );
}
