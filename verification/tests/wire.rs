use voicebridge::llm::{assistant_message, user_message};
use voicebridge::wire::{
    chatgpt_request_json, clear_message, dg_llm_request_json, json_escape, media_message,
    reply_message, transcript_message, tts_texts_json,
};

#[test]
fn escape_leaves_plain_text_alone() {
    assert_eq!(json_escape("hello world"), "hello world");
    assert_eq!(json_escape(""), "");
}

#[test]
fn escape_quotes_backslashes_and_controls() {
    assert_eq!(json_escape("say \"hi\""), "say \\\"hi\\\"");
    assert_eq!(json_escape("a\\b"), "a\\\\b");
    assert_eq!(json_escape("line\nbreak"), "line\\nbreak");
    assert_eq!(json_escape("\r\t"), "\\r\\t");
    assert_eq!(json_escape("\u{1}\u{1f}"), "\\u0001\\u001f");
}

#[test]
fn media_message_shape() {
    assert_eq!(
        media_message("CA123", "AAAA"),
        "{\"event\":\"media\",\"streamSid\":\"CA123\",\"media\":{\"payload\":\"AAAA\"}}"
    );
}

#[test]
fn clear_message_shape() {
    assert_eq!(
        clear_message("CA123"),
        "{\"event\":\"clear\",\"streamSid\":\"CA123\"}"
    );
}

#[test]
fn transcript_broadcast_shape() {
    assert_eq!(
        transcript_message("CA123", "one two", true),
        "{\"stream_sid\":\"CA123\",\"transcript\":\"one two\",\"is_final\":true}"
    );
    assert_eq!(
        transcript_message("CA123", "", false),
        "{\"stream_sid\":\"CA123\",\"transcript\":\"\",\"is_final\":false}"
    );
}

#[test]
fn reply_broadcast_carries_post_call_tag() {
    assert_eq!(
        reply_message("CA123", false, "hi"),
        "{\"stream_sid\":\"CA123\",\"post_call\":false,\"llm_response\":{\"results\":\"hi\"}}"
    );
    assert_eq!(
        reply_message("CA123", true, "bye"),
        "{\"stream_sid\":\"CA123\",\"post_call\":true,\"llm_response\":{\"results\":\"bye\"}}"
    );
}

#[test]
fn backend_request_bodies() {
    let turns = vec![user_message("hi".to_string()), assistant_message("hello".to_string())];
    assert_eq!(
        dg_llm_request_json(&turns),
        "{\"text\":[{\"role\":\"user\",\"content\":\"hi\"},{\"role\":\"assistant\",\"content\":\"hello\"}]}"
    );
    assert_eq!(
        chatgpt_request_json(&turns),
        "{\"model\":\"gpt-3.5-turbo\",\"messages\":[{\"role\":\"user\",\"content\":\"hi\"},{\"role\":\"assistant\",\"content\":\"hello\"}]}"
    );
    let empty: Vec<voicebridge::llm::LlmMessage> = Vec::new();
    assert_eq!(dg_llm_request_json(&empty), "{\"text\":[]}");
}

#[test]
fn tts_request_body_escapes_text() {
    assert_eq!(tts_texts_json("hello"), "[\"hello\"]");
    assert_eq!(tts_texts_json("say \"hi\""), "[\"say \\\"hi\\\"\"]");
}
