use matrix_pong::mixer::Mixer;
use matrix_pong::highscore::{header, header_matches, score_from_be, score_to_be};
use matrix_pong::sfx::{
    encode_frames, envelope_q15, frames_for_ms, le_bytes, le_sample, noise_sample, pan_gains_q15,
    pattern_demo_notes, render_frame, sat_i16, Adsrs, Lcg, Tone, Wave, CHUNK_FRAMES, NOISE_SEED,
};

fn le(samples: &[i16]) -> Vec<u8> {
    samples.iter().flat_map(|s| s.to_le_bytes()).collect()
}

fn samples(bytes: &[u8]) -> Vec<i16> {
    bytes.chunks(2).map(|c| i16::from_le_bytes([c[0], c[1]])).collect()
}

#[test]
fn sat_i16_clamps() {
    assert_eq!(sat_i16(40000), 32767);
    assert_eq!(sat_i16(-40000), -32768);
    assert_eq!(sat_i16(-5), -5);
}

#[test]
fn pan_is_a_linear_crossfade() {
    assert_eq!(pan_gains_q15(0), (16383, 16384));
    assert_eq!(pan_gains_q15(-32768), (32767, 0));
    assert_eq!(pan_gains_q15(32767), (0, 32767));
}

#[test]
fn presets() {
    let b = Adsrs::beep();
    assert_eq!((b.a_ms, b.d_ms, b.s_lvl_q15, b.r_ms), (4, 30, 0x6000, 60));
    let p = Adsrs::pluck();
    assert_eq!((p.a_ms, p.d_ms, p.s_lvl_q15, p.r_ms), (1, 80, 0x2000, 40));
    let n = Adsrs::burst();
    assert_eq!((n.a_ms, n.d_ms, n.s_lvl_q15, n.r_ms), (1, 30, 0x3000, 60));
}

#[test]
fn lcg_sequence() {
    let mut g = Lcg::new(NOISE_SEED);
    assert_eq!(g.0, 0xC0FFEF);
    assert_eq!(g.next(), 0x2a8c2c82);
    assert_eq!(g.0, 0x2a8c2c82);
    assert_eq!(Lcg::new(4).0, 5);
    assert_eq!(noise_sample(0x2a8c2c82), 17941);
}

#[test]
fn frames_per_ms() {
    assert_eq!(frames_for_ms(0), 0);
    assert_eq!(frames_for_ms(4), 32);
    assert_eq!(frames_for_ms(u32::MAX), 34_359_738_360);
}

#[test]
fn envelope_shape() {
    let e = Some(Adsrs::beep());
    let total = frames_for_ms(200);
    assert_eq!(envelope_q15(e, 0, total), 0);
    assert_eq!(envelope_q15(e, 16, total), 16383);
    assert_eq!(envelope_q15(e, 32, total), 0x7FFF);
    // Halfway through the decay (240 frames): 0x7FFF - (0x7FFF - 0x6000) * 120 / 240.
    assert_eq!(envelope_q15(e, 152, total), 0x7FFF - 0x1FFF / 2);
    assert_eq!(envelope_q15(e, 500, total), 0x6000);
    // Release over the last 480 frames.
    assert_eq!(envelope_q15(e, total - 480, total), 0x6000);
    assert_eq!(envelope_q15(e, total - 1, total) as u32, 0x6000 - 0x6000u32 * 479 / 480);
    assert!(envelope_q15(e, total - 1, total) <= 0x6000 / 480 + 1);
    assert_eq!(envelope_q15(None, 5, total), 0x7FFF);
}

#[test]
fn frame_scaling() {
    assert_eq!(render_frame(32767, 0x7FFF, 0x7FFF, 16383, 16384), (16381, 16382));
    assert_eq!(render_frame(-32767, 0x7FFF, 0x7FFF, 16383, 16384), (-16383, -16384));
    assert_eq!(render_frame(32767, 0xFFFF, 0x7FFF, 0xFFFF, 0), (32767, 0));
    assert_eq!(render_frame(1000, 0, 0x7FFF, 32767, 32767), (0, 0));
}

#[test]
fn tone_renders_in_chunks() {
    let mut t = Tone::new(Wave::Sine, 20, 0x7FFF, 0, None);
    assert_eq!(t.total_frames, 160);
    assert_eq!(t.chunk_len(), CHUNK_FRAMES);
    let osc = vec![32767; CHUNK_FRAMES];
    let frames = t.render_chunk(&osc);
    assert_eq!(frames.len(), CHUNK_FRAMES);
    assert_eq!(frames[0], (16381, 16382));
    assert_eq!(t.chunk_len(), 32);
    let rest = t.render_chunk(&vec![-32767; 32]);
    assert_eq!(rest[31], (-16383, -16384));
    assert!(t.is_done());
    assert_eq!(t.chunk_len(), 0);
}

#[test]
fn noise_tone_uses_generator() {
    let mut t = Tone::new(Wave::Noise, 1, 0x7FFF, -32768, None);
    assert_eq!(t.total_frames, 8);
    let frames = t.render_chunk(&[]);
    assert_eq!(frames.len(), 8);
    let x = noise_sample(0x2a8c2c82);
    assert_eq!(frames[0], render_frame(x, 0x7FFF, 0x7FFF, 32767, 0));
    assert_ne!(frames[0], frames[1]);
}

#[test]
fn enveloped_tone_starts_silent() {
    let mut t = Tone::new(Wave::Square, 100, 0x7FFF, 0, Some(Adsrs::pluck()));
    let frames = t.render_chunk(&vec![32767; CHUNK_FRAMES]);
    assert_eq!(frames[0], (0, 0));
    assert_ne!(frames[8], (0, 0));
}

#[test]
fn frames_encode_little_endian() {
    let bytes = encode_frames(&[(1, -1), (0x1234, -32768)]);
    assert_eq!(bytes, vec![1, 0, 0xff, 0xff, 0x34, 0x12, 0x00, 0x80]);
    assert_eq!(le_bytes(-2), (0xfe, 0xff));
    assert_eq!(le_sample(0xfe, 0xff), -2);
    assert_eq!(le_sample(0x34, 0x12), 0x1234);
}

#[test]
fn pattern_is_three_rising_notes() {
    let notes = pattern_demo_notes();
    assert_eq!(notes.len(), 3);
    assert_eq!(notes.iter().map(|n| n.freq_hz).collect::<Vec<_>>(), vec![220, 247, 262]);
    assert!(notes.iter().all(|n| n.wave == Wave::Tri && n.duration_ms == 1200 && n.gain_q15 == 0x1000));
    assert_eq!(notes[0].env.unwrap().r_ms, 100);
    assert_eq!(notes[2].env.unwrap().r_ms, 300);
}

#[test]
fn mixer_short_channel_tail_is_silence() {
    let m = Mixer::<2>::new();
    let mut dst = vec![0xAAu8; 8];
    let a = le(&[1000, 2000]);
    let b = le(&[]);
    m.mix_into(&mut dst, &vec![a, b]);
    // (1000 * 0x7FFF) >> 15 = 999, (2000 * 0x7FFF) >> 15 = 1999; the rest is silence.
    assert_eq!(samples(&dst), vec![999, 1999, 0, 0]);
}

#[test]
fn mixer_saturates_at_full_scale() {
    let m = Mixer::<3>::new();
    let mut dst = vec![0u8; 4];
    let hi = le(&[32767, -32768]);
    m.mix_into(&mut dst, &vec![hi.clone(), hi.clone(), hi]);
    assert_eq!(samples(&dst), vec![32767, -32768]);
}

#[test]
fn mixer_gain_and_order() {
    let mut m = Mixer::<2>::new();
    m.set_gain_q15(0, 0x4000);
    m.set_gain_q15(1, 0);
    assert_eq!(m.gain_q15(0), 0x4000);
    let mut dst = vec![0u8; 4];
    m.mix_into(&mut dst, &vec![le(&[-1000, 3]), le(&[5000, 5000])]);
    assert_eq!(samples(&dst), vec![-500, 1]);
    assert_eq!(m.gain_q15(1), 0);
}

#[test]
fn highscore_record_bytes() {
    assert_eq!(header(), *b"m3rra");
    assert!(header_matches(b"m3rra"));
    assert!(!header_matches(b"m3rrb"));
    assert!(!header_matches(&[0xff; 5]));
    assert_eq!(score_to_be(0x01020304), [1, 2, 3, 4]);
    assert_eq!(score_from_be([1, 2, 3, 4]), 0x01020304);
    assert_eq!(score_from_be(score_to_be(u32::MAX)), u32::MAX);
}

#[test]
fn fill_frames_zeroes_the_partial_tail() {
    let mut buf = vec![0xAAu8; 10];
    let written = matrix_pong::sfx::fill_frames(&mut buf, &[(1, -1), (256, 0)]);
    assert_eq!(written, 8);
    assert_eq!(buf, vec![1, 0, 0xff, 0xff, 0, 1, 0, 0, 0, 0]);
}
