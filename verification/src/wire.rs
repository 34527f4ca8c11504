//! Outbound wire messages, built and escaped by hand: the telephony leg's
//! media and clear-playback messages, the observer broadcast messages, and the
//! Dialogue Backend request bodies. Inbound JSON is decoded by the transport
//! layer into plain values before it reaches the library.

use vstd::prelude::*;

use crate::llm::{views_of, LlmMessage, TurnView};

verus! {

/// Relies on std's `String::push`: appends the given character to the string.
pub assume_specification[ String::push ](s: &mut String, ch: char)
    ensures
        final(s)@ == old(s)@.push(ch),
;

/// The lower-case hex digit of a value below 16.
pub open spec fn spec_hex_digit(d: int) -> char {
    if d == 0 {
        '0'
    } else if d == 1 {
        '1'
    } else if d == 2 {
        '2'
    } else if d == 3 {
        '3'
    } else if d == 4 {
        '4'
    } else if d == 5 {
        '5'
    } else if d == 6 {
        '6'
    } else if d == 7 {
        '7'
    } else if d == 8 {
        '8'
    } else if d == 9 {
        '9'
    } else if d == 10 {
        'a'
    } else if d == 11 {
        'b'
    } else if d == 12 {
        'c'
    } else if d == 13 {
        'd'
    } else if d == 14 {
        'e'
    } else {
        'f'
    }
}

/// What one character contributes to a JSON string literal: quotes and
/// backslashes get a backslash, the common control characters their short
/// escapes, other control characters a `\u00..` escape, everything else
/// itself.
pub open spec fn spec_escape_char(c: char) -> Seq<char> {
    if c == '"' {
        seq!['\\', '"']
    } else if c == '\\' {
        seq!['\\', '\\']
    } else if c == '\n' {
        seq!['\\', 'n']
    } else if c == '\r' {
        seq!['\\', 'r']
    } else if c == '\t' {
        seq!['\\', 't']
    } else if (c as int) < 32 {
        seq!['\\', 'u', '0', '0', spec_hex_digit(c as int / 16), spec_hex_digit(c as int % 16)]
    } else {
        seq![c]
    }
}

/// The body of a JSON string literal holding the given text.
pub open spec fn spec_json_escape(s: Seq<char>) -> Seq<char>
    decreases s.len(),
{
    if s.len() == 0 {
        Seq::empty()
    } else {
        spec_json_escape(s.drop_last()) + spec_escape_char(s.last())
    }
}

/// Escaping distributes over appending one character at the end.
proof fn lemma_json_escape_push(s: Seq<char>, c: char)
    ensures
        spec_json_escape(s.push(c)) == spec_json_escape(s) + spec_escape_char(c),
{
    assert(s.push(c).drop_last() =~= s);
    assert(s.push(c).last() == c);
}

/// The lower-case hex digit of a value below 16.
fn hex_digit(d: u32) -> (c: char)
    requires
        d < 16,
    ensures
        c == spec_hex_digit(d as int),
{
    if d == 0 {
        '0'
    } else if d == 1 {
        '1'
    } else if d == 2 {
        '2'
    } else if d == 3 {
        '3'
    } else if d == 4 {
        '4'
    } else if d == 5 {
        '5'
    } else if d == 6 {
        '6'
    } else if d == 7 {
        '7'
    } else if d == 8 {
        '8'
    } else if d == 9 {
        '9'
    } else if d == 10 {
        'a'
    } else if d == 11 {
        'b'
    } else if d == 12 {
        'c'
    } else if d == 13 {
        'd'
    } else if d == 14 {
        'e'
    } else {
        'f'
    }
}

/// Escapes text for inclusion in a JSON string literal.
pub fn json_escape(s: &str) -> (r: String)
    ensures
        r@ == spec_json_escape(s@),
{
    let n = s.unicode_len();
    let mut r = String::new();
    let mut i: usize = 0;
    while i < n
        invariant
            n == s@.len(),
            0 <= i <= n,
            r@ == spec_json_escape(s@.take(i as int)),
        decreases n - i,
    {
        let c = s.get_char(i);
        let cv: u32 = c as u32;
        if c == '"' {
            r.push('\\');
            r.push('"');
        } else if c == '\\' {
            r.push('\\');
            r.push('\\');
        } else if c == '\n' {
            r.push('\\');
            r.push('n');
        } else if c == '\r' {
            r.push('\\');
            r.push('r');
        } else if c == '\t' {
            r.push('\\');
            r.push('t');
        } else if cv < 32 {
            r.push('\\');
            r.push('u');
            r.push('0');
            r.push('0');
            r.push(hex_digit(cv / 16));
            r.push(hex_digit(cv % 16));
        } else {
            r.push(c);
        }
        proof {
            assert(s@.take(i + 1) =~= s@.take(i as int).push(s@[i as int]));
            lemma_json_escape_push(s@.take(i as int), s@[i as int]);
            assert(r@ =~= spec_json_escape(s@.take(i + 1)));
        }
        i = i + 1;
    }
    proof {
        assert(s@.take(n as int) =~= s@);
    }
    r
}

/// A JSON boolean.
pub open spec fn spec_json_bool(b: bool) -> Seq<char> {
    if b {
        "true"@
    } else {
        "false"@
    }
}

/// The telephony leg's outbound media message: base64 mu-law audio keyed by
/// the call's stream identifier.
pub open spec fn spec_media_message(sid: Seq<char>, payload: Seq<char>) -> Seq<char> {
    "{\"event\":\"media\",\"streamSid\":\""@ + spec_json_escape(sid)
        + "\",\"media\":{\"payload\":\""@ + spec_json_escape(payload) + "\"}}"@
}

/// Builds the outbound media message for the telephony leg.
pub fn media_message(stream_sid: &str, payload_b64: &str) -> (r: String)
    ensures
        r@ == spec_media_message(stream_sid@, payload_b64@),
{
    let mut r = "{\"event\":\"media\",\"streamSid\":\"".to_owned();
    r.append(json_escape(stream_sid).as_str());
    r.append("\",\"media\":{\"payload\":\"");
    r.append(json_escape(payload_b64).as_str());
    r.append("\"}}");
    proof {
        assert(r@ =~= spec_media_message(stream_sid@, payload_b64@));
    }
    r
}

/// The telephony leg's clear-playback control message (barge-in).
pub open spec fn spec_clear_message(sid: Seq<char>) -> Seq<char> {
    "{\"event\":\"clear\",\"streamSid\":\""@ + spec_json_escape(sid) + "\"}"@
}

/// Builds the clear-playback message that aborts queued audio on the call.
pub fn clear_message(stream_sid: &str) -> (r: String)
    ensures
        r@ == spec_clear_message(stream_sid@),
{
    let mut r = "{\"event\":\"clear\",\"streamSid\":\"".to_owned();
    r.append(json_escape(stream_sid).as_str());
    r.append("\"}");
    proof {
        assert(r@ =~= spec_clear_message(stream_sid@));
    }
    r
}

/// The observer broadcast for one transcript event: the call it belongs to,
/// the transcribed text, and whether the fragment is final.
pub open spec fn spec_transcript_message(sid: Seq<char>, text: Seq<char>, is_final: bool) -> Seq<
    char,
> {
    "{\"stream_sid\":\""@ + spec_json_escape(sid) + "\",\"transcript\":\""@ + spec_json_escape(
        text,
    ) + "\",\"is_final\":"@ + spec_json_bool(is_final) + "}"@
}

/// Builds the observer broadcast for one transcript event.
pub fn transcript_message(stream_sid: &str, text: &str, is_final: bool) -> (r: String)
    ensures
        r@ == spec_transcript_message(stream_sid@, text@, is_final),
{
    let mut r = "{\"stream_sid\":\"".to_owned();
    r.append(json_escape(stream_sid).as_str());
    r.append("\",\"transcript\":\"");
    r.append(json_escape(text).as_str());
    r.append("\",\"is_final\":");
    r.append(if is_final {
        "true"
    } else {
        "false"
    });
    r.append("}");
    proof {
        assert(r@ =~= spec_transcript_message(stream_sid@, text@, is_final));
    }
    r
}

/// The observer broadcast for one backend reply: the call it belongs to,
/// whether it came from the post-call sequence, and the reply text.
pub open spec fn spec_reply_message(sid: Seq<char>, post_call: bool, reply: Seq<char>) -> Seq<
    char,
> {
    "{\"stream_sid\":\""@ + spec_json_escape(sid) + "\",\"post_call\":"@ + spec_json_bool(
        post_call,
    ) + ",\"llm_response\":{\"results\":\""@ + spec_json_escape(reply) + "\"}}"@
}

/// Builds the observer broadcast for one backend reply.
pub fn reply_message(stream_sid: &str, post_call: bool, reply: &str) -> (r: String)
    ensures
        r@ == spec_reply_message(stream_sid@, post_call, reply@),
{
    let mut r = "{\"stream_sid\":\"".to_owned();
    r.append(json_escape(stream_sid).as_str());
    r.append("\",\"post_call\":");
    r.append(if post_call {
        "true"
    } else {
        "false"
    });
    r.append(",\"llm_response\":{\"results\":\"");
    r.append(json_escape(reply).as_str());
    r.append("\"}}");
    proof {
        assert(r@ =~= spec_reply_message(stream_sid@, post_call, reply@));
    }
    r
}

/// One history message as a JSON object.
pub open spec fn spec_message_json(m: TurnView) -> Seq<char> {
    "{\"role\":\""@ + spec_json_escape(m.role) + "\",\"content\":\""@ + spec_json_escape(m.content)
        + "\"}"@
}

/// The comma-separated items of a history array.
pub open spec fn spec_messages_items(msgs: Seq<TurnView>) -> Seq<char>
    decreases msgs.len(),
{
    if msgs.len() == 0 {
        Seq::empty()
    } else if msgs.len() == 1 {
        spec_message_json(msgs[0])
    } else {
        spec_messages_items(msgs.drop_last()) + ","@ + spec_message_json(msgs.last())
    }
}

/// A whole history as a JSON array.
pub open spec fn spec_messages_array(msgs: Seq<TurnView>) -> Seq<char> {
    "["@ + spec_messages_items(msgs) + "]"@
}

/// Builds one history message as a JSON object.
fn message_json(m: &LlmMessage) -> (r: String)
    ensures
        r@ == spec_message_json(m@),
{
    let mut r = "{\"role\":\"".to_owned();
    r.append(json_escape(m.role.as_str()).as_str());
    r.append("\",\"content\":\"");
    r.append(json_escape(m.content.as_str()).as_str());
    r.append("\"}");
    proof {
        assert(r@ =~= spec_message_json(m@));
    }
    r
}

/// Builds a whole history as a JSON array, in conversation order.
pub fn messages_array(messages: &Vec<LlmMessage>) -> (r: String)
    ensures
        r@ == spec_messages_array(views_of(messages@)),
{
    let mut r = "[".to_owned();
    let mut i: usize = 0;
    while i < messages.len()
        invariant
            0 <= i <= messages@.len(),
            r@ == "["@ + spec_messages_items(views_of(messages@.take(i as int))),
        decreases messages@.len() - i,
    {
        if i > 0 {
            r.append(",");
        }
        r.append(message_json(&messages[i]).as_str());
        proof {
            let vs = views_of(messages@.take(i + 1));
            assert(vs.drop_last() =~= views_of(messages@.take(i as int)));
            assert(vs.last() == messages@[i as int]@);
            assert(r@ =~= "["@ + spec_messages_items(vs));
        }
        i = i + 1;
    }
    r.append("]");
    proof {
        assert(messages@.take(messages@.len() as int) =~= messages@);
        assert(r@ =~= spec_messages_array(views_of(messages@)));
    }
    r
}

/// The request body of the hosted Dialogue Backend: the history under `text`.
pub open spec fn spec_dg_llm_request_json(msgs: Seq<TurnView>) -> Seq<char> {
    "{\"text\":"@ + spec_messages_array(msgs) + "}"@
}

/// Builds the hosted Dialogue Backend's request body.
pub fn dg_llm_request_json(messages: &Vec<LlmMessage>) -> (r: String)
    ensures
        r@ == spec_dg_llm_request_json(views_of(messages@)),
{
    let mut r = "{\"text\":".to_owned();
    r.append(messages_array(messages).as_str());
    r.append("}");
    proof {
        assert(r@ =~= spec_dg_llm_request_json(views_of(messages@)));
    }
    r
}

/// The chat-completion request body of the alternative Dialogue Backend: the
/// fixed model name and the history under `messages`.
pub open spec fn spec_chatgpt_request_json(msgs: Seq<TurnView>) -> Seq<char> {
    "{\"model\":\"gpt-3.5-turbo\",\"messages\":"@ + spec_messages_array(msgs) + "}"@
}

/// Builds the chat-completion request body.
pub fn chatgpt_request_json(messages: &Vec<LlmMessage>) -> (r: String)
    ensures
        r@ == spec_chatgpt_request_json(views_of(messages@)),
{
    let mut r = "{\"model\":\"gpt-3.5-turbo\",\"messages\":".to_owned();
    r.append(messages_array(messages).as_str());
    r.append("}");
    proof {
        assert(r@ =~= spec_chatgpt_request_json(views_of(messages@)));
    }
    r
}

/// The Voice Synthesis Backend's request body: a one-element JSON array
/// holding the utterance text.
pub open spec fn spec_tts_texts_json(text: Seq<char>) -> Seq<char> {
    "[\""@ + spec_json_escape(text) + "\"]"@
}

/// Builds the Voice Synthesis Backend's request body.
pub fn tts_texts_json(text: &str) -> (r: String)
    ensures
        r@ == spec_tts_texts_json(text@),
{
    let mut r = "[\"".to_owned();
    r.append(json_escape(text).as_str());
    r.append("\"]");
    proof {
        assert(r@ =~= spec_tts_texts_json(text@));
    }
    r
}

} // verus!
