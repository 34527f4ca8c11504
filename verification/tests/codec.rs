use voicebridge::codec::{
    decimate_by_half, decode_mu_law, encode_mu_law, encode_samples_mu_law, pcm_le_bytes_to_samples,
};

#[test]
fn encode_standard_vectors() {
    // Zero encodes to all-ones; the extremes reach the segment limits.
    assert_eq!(encode_mu_law(0), 0xFF);
    assert_eq!(encode_mu_law(32767), 0x80);
    assert_eq!(encode_mu_law(-32768), 0x00);
    assert_eq!(encode_mu_law(-1), 0x7F);
}

#[test]
fn decode_standard_vectors() {
    assert_eq!(decode_mu_law(0xFF), 0);
    assert_eq!(decode_mu_law(0x7F), 0);
    assert_eq!(decode_mu_law(0x80), 32124);
    assert_eq!(decode_mu_law(0x00), -32124);
}

#[test]
fn round_trip_exact_values() {
    assert_eq!(decode_mu_law(encode_mu_law(1000)), 988);
    assert_eq!(decode_mu_law(encode_mu_law(-1000)), -988);
    assert_eq!(decode_mu_law(encode_mu_law(0)), 0);
}

#[test]
fn round_trip_within_tolerance() {
    let samples: [i16; 12] = [
        0, 1, -1, 7, 100, -100, 1000, -1000, 8000, -8000, 32767, -32768,
    ];
    for &x in samples.iter() {
        let y = decode_mu_law(encode_mu_law(x)) as i32;
        let err = (y - x as i32).abs();
        // Half a quantization step of the largest segment, plus the clamp at
        // the extremes, bounds the error everywhere.
        assert!(err <= 645, "sample {} decoded to {} (error {})", x, y, err);
        // Small samples sit in fine segments: the error stays small too.
        if (x as i32).abs() <= 124 {
            assert!(err <= 4, "sample {} decoded to {} (error {})", x, y, err);
        }
    }
}

#[test]
fn round_trip_monotone_spot_check() {
    // Decoding inverts encoding monotonically on a rising ramp.
    let mut prev = decode_mu_law(encode_mu_law(-32768));
    let mut x: i32 = -32768;
    while x <= 32000 {
        let y = decode_mu_law(encode_mu_law(x as i16));
        assert!(y >= prev);
        prev = y;
        x += 997;
    }
}

#[test]
fn pcm_little_endian_pairs() {
    let bytes: Vec<u8> = vec![0x34, 0x12, 0xFF, 0xFF, 0x00, 0x80, 0xAB];
    let samples = pcm_le_bytes_to_samples(&bytes);
    assert_eq!(samples, vec![0x1234, -1, -32768]);
}

#[test]
fn decimate_keeps_every_second_sample() {
    let samples: Vec<i16> = vec![1, 2, 3, 4, 5];
    assert_eq!(decimate_by_half(&samples), vec![1, 3]);
    let empty: Vec<i16> = Vec::new();
    assert_eq!(decimate_by_half(&empty), Vec::<i16>::new());
}

#[test]
fn encode_samples_in_order() {
    let samples: Vec<i16> = vec![0, 32767, -32768];
    assert_eq!(encode_samples_mu_law(&samples), vec![0xFF, 0x80, 0x00]);
}
