use base64::Engine;
use voicebridge::synth::{
    pcm_bytes_to_mu_law_base64, samples_to_mu_law_base64, wideband_samples_to_mu_law_base64,
    DgTtsTexts,
};

#[test]
fn silence_encodes_to_known_base64() {
    let samples: Vec<i16> = vec![0];
    // One zero sample -> mu-law 0xFF -> base64 "/w==".
    assert_eq!(samples_to_mu_law_base64(&samples), "/w==");
}

#[test]
fn samples_pipeline_matches_manual_encoding() {
    let samples: Vec<i16> = vec![0, 1000, -1000, 32767, -32768];
    let expected_bytes: Vec<u8> = samples
        .iter()
        .map(|&x| voicebridge::codec::encode_mu_law(x))
        .collect();
    let expected = base64::engine::general_purpose::STANDARD.encode(&expected_bytes);
    assert_eq!(samples_to_mu_law_base64(&samples), expected);
}

#[test]
fn pcm_bytes_pipeline_reads_little_endian() {
    // Two samples: 0 and 1000 (0x03E8), little endian.
    let pcm: Vec<u8> = vec![0x00, 0x00, 0xE8, 0x03];
    let expected_bytes = vec![
        voicebridge::codec::encode_mu_law(0),
        voicebridge::codec::encode_mu_law(1000),
    ];
    let expected = base64::engine::general_purpose::STANDARD.encode(&expected_bytes);
    assert_eq!(pcm_bytes_to_mu_law_base64(&pcm), expected);
}

#[test]
fn wideband_pipeline_decimates_first() {
    // 16 kHz input: every second sample is dropped before encoding.
    let wide: Vec<i16> = vec![0, 9999, 1000, 9999];
    let narrow: Vec<i16> = vec![0, 1000];
    assert_eq!(
        wideband_samples_to_mu_law_base64(&wide),
        samples_to_mu_law_base64(&narrow)
    );
}

#[test]
fn tts_payload_holds_one_text() {
    let payload = DgTtsTexts::from_text("hello there".to_string());
    assert_eq!(payload.text(), "hello there");
}
