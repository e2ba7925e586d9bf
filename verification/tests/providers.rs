use select2explain::ai_pipeline::{connection_test_request, explain_request, PipelineInput, EXPLAIN_SYSTEM_PROMPT};
use select2explain::providers::{first_choice_content, provider_error_message, OpenAiClient, VisionRequest};
use select2explain::state::ProviderSettings;

#[test]
fn client_keeps_its_endpoint() {
    let c = OpenAiClient::new("https://openrouter.ai/api/v1", "key");
    assert_eq!(c.base_url, "https://openrouter.ai/api/v1");
    assert_eq!(c.api_key, "key");
    assert_eq!(c.chat_completions_url(), "https://openrouter.ai/api/v1/chat/completions");
    assert_eq!(OpenAiClient::new("http://localhost:11434/v1//", "").chat_completions_url(), "http://localhost:11434/v1/chat/completions");
}

#[test]
fn refusals_report_the_error_message() {
    assert_eq!(provider_error_message(401, "{\"error\":{\"message\":\"Invalid key\"}}"), "Invalid key");
    assert_eq!(provider_error_message(500, "oops"), "HTTP 500: oops");
    assert_eq!(provider_error_message(404, "{\"error\":{\"code\":1}}"), "HTTP 404: {\"error\":{\"code\":1}}");
}

#[test]
fn vision_images_are_data_urls() {
    let req = VisionRequest {
        model: "m".to_string(),
        system: "s".to_string(),
        user_text: "u".to_string(),
        image_base64: "QUJD".to_string(),
        image_mime: "image/png".to_string(),
    };
    assert_eq!(OpenAiClient::vision_image_url(&req), "data:image/png;base64,QUJD");
}

#[test]
fn explanation_request_carries_the_prompt() {
    let settings = ProviderSettings::default();
    let input = PipelineInput { selected_text: "fox".to_string(), window_text: "the fox".to_string() };
    let req = explain_request(&input, &settings);
    assert_eq!(req.model, "x-ai/grok-4.1-fast");
    assert_eq!(req.system, EXPLAIN_SYSTEM_PROMPT);
    assert_eq!(req.user, "Selected text: \"fox\"\n\nFull context from the window:\nthe fox");
    let t = connection_test_request(&settings);
    assert_eq!(t.user, "Reply with just: ok");
    assert_eq!(t.system, "You are a test assistant.");
}

#[test]
fn the_first_choice_is_the_answer() {
    assert_eq!(first_choice_content(vec!["one".to_string(), "two".to_string()]), "one");
    assert_eq!(first_choice_content(Vec::new()), "");
}
