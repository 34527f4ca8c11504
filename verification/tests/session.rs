//! Scenarios over several components together, with the transports faked:
//! the start-event handoff, the greeting, one full exchange, and the
//! broadcast fan-out.

use voicebridge::assembler::{process_media_bytes, BufferData};
use voicebridge::dialogue::DialogueEngine;
use voicebridge::handoff::StreamIdSlot;
use voicebridge::registry::Registry;
use voicebridge::wire::{media_message, reply_message};

#[test]
fn start_event_binds_stream_id_and_greeting_goes_out_first() {
    // The inbound start event carries the stream identifier; the handoff
    // gives it to the dialogue leg exactly once.
    let mut slot = StreamIdSlot::new();
    assert!(slot.offer("CA123".to_string()));
    let sid = slot.take().expect("the dialogue leg receives the identifier");
    assert_eq!(sid, "CA123");

    // The engine starts with the configured greeting as its second turn and
    // has processed no transcript yet.
    let engine = DialogueEngine::new("Be helpful.", "Hello, how may I help you today?");
    assert_eq!(engine.turns().len(), 2);
    assert_eq!(engine.turns()[1].content, "Hello, how may I help you today?");
    assert_eq!(engine.utterance(), "");

    // The first outbound message of the call is the greeting's audio, keyed
    // by the stream identifier from the start event.
    let message = media_message(&sid, "AAAA");
    assert_eq!(
        message,
        "{\"event\":\"media\",\"streamSid\":\"CA123\",\"media\":{\"payload\":\"AAAA\"}}"
    );
}

#[test]
fn audio_flows_through_assembler_in_arrival_order() {
    let mut buf = BufferData::new();
    let mut forwarded: Vec<u8> = Vec::new();
    let chunks: Vec<Vec<u8>> = (0u8..30).map(|c| vec![c; 200]).collect();
    let mut ts = 20;
    for chunk in &chunks {
        if let Some(frame) = process_media_bytes(chunk.clone(), ts, &mut buf) {
            forwarded.extend_from_slice(&frame);
        }
        ts += 20;
    }
    forwarded.extend_from_slice(&buf.inbound_buffer);
    let all: Vec<u8> = chunks.concat();
    assert_eq!(forwarded, all);
}

#[test]
fn one_exchange_then_broadcast_to_survivors() {
    let mut engine = DialogueEngine::new("Be helpful.", "Hello!");
    engine.on_transcript("I need a quote", true);
    let request = engine.on_utterance_boundary().unwrap();
    assert_eq!(request.last().unwrap().content, "I need a quote");
    engine.on_assistant_reply("Sure, for what?");

    let mut registry = Registry::new();
    registry.subscribe_global(1);
    registry.subscribe_global(2);
    let payload = reply_message("CA123", engine.is_post_call(), "Sure, for what?");
    assert!(payload.contains("\"post_call\":false"));
    // One observer's send fails during the broadcast.
    registry.prune_global(&vec![true, false]);
    assert_eq!(registry.global_subscribers(), &vec![1]);
}
