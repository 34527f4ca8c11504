use voicebridge::llm::{
    assistant_message, chatgpt_reply, llm_messages_to_string, user_message, ChatGPTChoice,
    ChatGPTRequest, ChatGPTResponse, ChatGPTUsage, LlmMessage,
};

#[test]
fn messages_to_string_empty_history() {
    assert_eq!(llm_messages_to_string(Vec::new()), "");
}

#[test]
fn messages_to_string_labels_roles() {
    let one = vec![user_message("need help".to_string())];
    assert_eq!(llm_messages_to_string(one), "Customer: need help ");
    let other = vec![assistant_message("how can I help".to_string())];
    assert_eq!(llm_messages_to_string(other), "Me: how can I help ");
}

#[test]
fn messages_to_string_keeps_only_the_last() {
    // Each message's rendering replaces the previous one.
    let turns = vec![
        user_message("first".to_string()),
        assistant_message("second".to_string()),
        user_message("third".to_string()),
    ];
    assert_eq!(llm_messages_to_string(turns), "Customer: third ");
}

#[test]
fn chatgpt_request_fixes_the_model() {
    let request = ChatGPTRequest::new(vec![user_message("hi".to_string())]);
    assert_eq!(request.model, "gpt-3.5-turbo");
    assert_eq!(request.messages.len(), 1);
}

#[test]
fn chatgpt_reply_takes_the_first_choice() {
    let response = ChatGPTResponse {
        id: "r1".to_string(),
        object: "chat.completion".to_string(),
        created: 0,
        choices: vec![
            ChatGPTChoice {
                index: 0,
                message: LlmMessage {
                    role: "assistant".to_string(),
                    content: "hello".to_string(),
                },
                finish_reason: "stop".to_string(),
            },
            ChatGPTChoice {
                index: 1,
                message: LlmMessage {
                    role: "assistant".to_string(),
                    content: "other".to_string(),
                },
                finish_reason: "stop".to_string(),
            },
        ],
        usage: ChatGPTUsage { prompt_tokens: 1, completion_tokens: 1, total_tokens: 2 },
    };
    assert_eq!(chatgpt_reply(response), Some("hello".to_string()));
}

#[test]
fn chatgpt_reply_without_choices_is_none() {
    let response = ChatGPTResponse {
        id: "r2".to_string(),
        object: "chat.completion".to_string(),
        created: 0,
        choices: Vec::new(),
        usage: ChatGPTUsage { prompt_tokens: 0, completion_tokens: 0, total_tokens: 0 },
    };
    assert_eq!(chatgpt_reply(response), None);
}
