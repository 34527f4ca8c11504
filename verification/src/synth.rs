//! Post-processing of synthesized speech for the telephony leg: the Voice
//! Synthesis Backends hand back linear PCM (as little-endian bytes at 8 kHz,
//! or as 16 kHz samples), and the call leg needs base64-encoded 8 kHz mu-law.

use vstd::prelude::*;

use crate::b64::{base64_encode, base64_of};
use crate::codec::{
    decimate_by_half, encode_samples_mu_law, pcm_le_bytes_to_samples, spec_decimate_by_half,
    spec_mu_law_bytes, spec_pcm_le_samples,
};

verus! {

/// Encodes 8 kHz linear samples for the telephony leg: mu-law, then base64.
pub fn samples_to_mu_law_base64(samples: &Vec<i16>) -> (r: String)
    ensures
        r@ == base64_of(spec_mu_law_bytes(samples@)),
{
    let mulaw = encode_samples_mu_law(samples);
    base64_encode(&mulaw)
}

/// Encodes a backend's 8 kHz little-endian PCM byte stream for the telephony
/// leg: reassemble 16-bit samples, mu-law encode, base64 encode.
pub fn pcm_bytes_to_mu_law_base64(pcm: &Vec<u8>) -> (r: String)
    ensures
        r@ == base64_of(spec_mu_law_bytes(spec_pcm_le_samples(pcm@))),
{
    let samples = pcm_le_bytes_to_samples(pcm);
    let mulaw = encode_samples_mu_law(&samples);
    base64_encode(&mulaw)
}

/// Encodes a backend's 16 kHz samples for the telephony leg: decimate to
/// 8 kHz, mu-law encode, base64 encode.
pub fn wideband_samples_to_mu_law_base64(samples: &Vec<i16>) -> (r: String)
    ensures
        r@ == base64_of(spec_mu_law_bytes(spec_decimate_by_half(samples@))),
{
    let narrow = decimate_by_half(samples);
    let mulaw = encode_samples_mu_law(&narrow);
    base64_encode(&mulaw)
}

/// The Voice Synthesis Backend's request payload: the texts to synthesize.
pub struct DgTtsTexts(Vec<String>);

impl DgTtsTexts {
    /// A payload carrying one utterance.
    pub fn from_text(text: String) -> (r: Self)
        ensures
            r.texts()@.len() == 1,
            r.texts()@[0]@ == text@,
    {
        let mut v: Vec<String> = Vec::new();
        v.push(text);
        DgTtsTexts(v)
    }

    /// The texts the payload carries, in order.
    pub closed spec fn texts(&self) -> Vec<String> {
        self.0
    }

    /// The single utterance of a one-text payload.
    pub fn text(&self) -> (r: &String)
        requires
            self.texts()@.len() == 1,
        ensures
            r@ == self.texts()@[0]@,
    {
        &self.0[0]
    }
}

} // verus!
