use market_cli::ai::{
    ChatRequest, ChatRequestInput, ChatResponse, ClaudeChatRequest, ClaudeChatResponse,
    ClaudeChatResponseOutput, ClaudeModelOutput, ClaudeModelResponse, ClaudeUsageMetrics,
    DOChatChoice, DOChatMessage, DOChatRequest, DOChatResponse, DOUsageMetrics, GptChatContent,
    GptChatRequest, GptChatResponse, GptChatResponseOutput, GptUsageMetrics, OllamaChatMessage,
    OllamaChatRequest, OllamaChatResponse, OllamaModelOutput, OllamaModelResponse, UsageMetrics,
    ollama_base_url,
};

fn request() -> ChatRequest {
    ChatRequest {
        model: "m".to_string(),
        input: vec![
            ChatRequestInput { role: "system".to_string(), content: "be brief".to_string() },
            ChatRequestInput { role: "user".to_string(), content: "hi".to_string() },
        ],
    }
}

#[test]
fn requests_keep_model_and_messages() {
    let c = ClaudeChatRequest::from(request());
    assert_eq!(c.model, "m");
    assert_eq!(c.messages.len(), 2);
    assert_eq!(c.messages[1].role, "user");
    assert_eq!(c.messages[1].content, "hi");
    let g = GptChatRequest::from(request());
    assert_eq!(g.input[0].content, "be brief");
    let d = DOChatRequest::from(request());
    assert_eq!(d.messages[0].role, "system");
    let o = OllamaChatRequest::from(request());
    assert!(!o.stream);
    assert_eq!(o.messages.len(), 2);
}

#[test]
fn anthropic_response_flattens_content_blocks() {
    let r = ChatResponse::from_claude(ClaudeChatResponse {
        role: "assistant".to_string(),
        content: vec![
            ClaudeChatResponseOutput { text: "a".to_string() },
            ClaudeChatResponseOutput { text: "b".to_string() },
        ],
        usage: ClaudeUsageMetrics { input_tokens: 3, output_tokens: 4 },
    });
    assert_eq!(r.messages.len(), 2);
    assert_eq!(r.messages[0].role, "assistant");
    assert_eq!(r.messages[1].content, "b");
    assert_eq!(r.usage, UsageMetrics { input_tokens: 3, output_tokens: 4 });
}

#[test]
fn gpt_response_flattens_outputs_in_order() {
    let r = ChatResponse::from_gpt(GptChatResponse {
        output: vec![
            GptChatResponseOutput {
                role: "assistant".to_string(),
                content: vec![GptChatContent { text: "x".to_string() }, GptChatContent { text: "y".to_string() }],
            },
            GptChatResponseOutput { role: "tool".to_string(), content: vec![] },
            GptChatResponseOutput { role: "other".to_string(), content: vec![GptChatContent { text: "z".to_string() }] },
        ],
        usage: GptUsageMetrics { input_tokens: 1, output_tokens: 2, total_tokens: 3 },
    });
    let got: Vec<(String, String)> = r.messages.iter().map(|m| (m.role.clone(), m.content.clone())).collect();
    assert_eq!(
        got,
        vec![
            ("assistant".to_string(), "x".to_string()),
            ("assistant".to_string(), "y".to_string()),
            ("other".to_string(), "z".to_string()),
        ]
    );
    assert_eq!(r.usage, UsageMetrics { input_tokens: 1, output_tokens: 2 });
}

#[test]
fn digitalocean_response_defaults_missing_content() {
    let r = ChatResponse::from_do(DOChatResponse {
        choices: vec![
            DOChatChoice { message: DOChatMessage { role: "assistant".to_string(), content: None } },
            DOChatChoice { message: DOChatMessage { role: "assistant".to_string(), content: Some("ok".to_string()) } },
        ],
        usage: DOUsageMetrics { prompt_tokens: 7, completion_tokens: 8, total_tokens: 15 },
    });
    assert_eq!(r.messages[0].content, "");
    assert_eq!(r.messages[1].content, "ok");
    assert_eq!(r.usage, UsageMetrics { input_tokens: 7, output_tokens: 8 });
}

#[test]
fn ollama_response_and_models() {
    let r = ChatResponse::from_ollama(OllamaChatResponse {
        message: OllamaChatMessage { role: "assistant".to_string(), content: "hey".to_string() },
        prompt_eval_count: 5,
        eval_count: 6,
    });
    assert_eq!(r.messages.len(), 1);
    assert_eq!(r.messages[0].content, "hey");
    assert_eq!(r.usage, UsageMetrics { input_tokens: 5, output_tokens: 6 });
    let names = OllamaModelResponse { models: vec![OllamaModelOutput { name: "llama3".to_string() }] }.model_names();
    assert_eq!(names, vec!["llama3".to_string()]);
    assert_eq!(ollama_base_url(None), "http://localhost:11434");
    assert_eq!(ollama_base_url(Some("http://h:1".to_string())), "http://h:1");
}

#[test]
fn model_ids_in_order() {
    let ids = ClaudeModelResponse {
        data: vec![
            ClaudeModelOutput { id: "a".to_string(), display_name: "A".to_string() },
            ClaudeModelOutput { id: "b".to_string(), display_name: "B".to_string() },
        ],
    }
    .model_ids();
    assert_eq!(ids, vec!["a".to_string(), "b".to_string()]);
}
