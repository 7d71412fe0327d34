//! WAV encoding of synthesised sound.

use bbc_micro_emu::sn76489::{wav_bytes, Sn76489};

#[test]
fn wav_header_and_samples() {
    let bytes = wav_bytes(&[0x1234, -2], 22_050);
    assert_eq!(bytes.len(), 44 + 4);
    assert_eq!(&bytes[0..4], b"RIFF");
    assert_eq!(&bytes[4..8], &40u32.to_le_bytes());
    assert_eq!(&bytes[8..16], b"WAVEfmt ");
    assert_eq!(&bytes[16..20], &16u32.to_le_bytes());
    assert_eq!(&bytes[20..22], &1u16.to_le_bytes());
    assert_eq!(&bytes[22..24], &1u16.to_le_bytes());
    assert_eq!(&bytes[24..28], &22_050u32.to_le_bytes());
    assert_eq!(&bytes[28..32], &44_100u32.to_le_bytes());
    assert_eq!(&bytes[32..34], &2u16.to_le_bytes());
    assert_eq!(&bytes[34..36], &16u16.to_le_bytes());
    assert_eq!(&bytes[36..40], b"data");
    assert_eq!(&bytes[40..44], &4u32.to_le_bytes());
    assert_eq!(&bytes[44..48], &[0x34, 0x12, 0xFE, 0xFF]);
}

#[test]
fn wav_of_synthesised_tone_has_expected_size() {
    let mut s = Sn76489::new();
    s.write(0x80);
    s.write(0x10);
    s.write(0x90);
    let pcm = s.synthesize(44_100, 11_025);
    let bytes = wav_bytes(&pcm, 44_100);
    let data_size = u32::from_le_bytes([bytes[40], bytes[41], bytes[42], bytes[43]]);
    assert_eq!(data_size, 22_050);
    assert_eq!(bytes.len(), 44 + 22_050);
}

#[test]
fn loudness_follows_two_decibel_steps() {
    // Peak amplitude per attenuation step: 8000 scaled by 0.7943 (-2 dB)
    // per step, step 15 silent.
    let mut expected = [0i32; 16];
    let mut v: f32 = 8000.0;
    for slot in expected.iter_mut().take(15) {
        *slot = v as i16 as i32;
        v *= 0.7943;
    }
    for att in 0u8..16 {
        let mut c = Sn76489::new();
        c.write(0x80);
        c.write(0x10);
        c.write(0x90 | att);
        let pcm = c.synthesize(44_100, 64);
        let peak = pcm.iter().map(|v| (*v as i32).abs()).max().unwrap();
        assert_eq!(peak, expected[att as usize], "attenuation {att}");
    }
}
