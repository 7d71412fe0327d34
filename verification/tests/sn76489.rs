use bbc_micro_emu::sn76489::Sn76489;

#[test]
fn latch_byte_sets_low_nibble_of_period() {
    let mut s = Sn76489::new();
    s.write(0x80 | 0x0A); // channel 0 frequency, low nibble = $A
    assert_eq!(s.channel_period(0) & 0x0F, 0x0A);
}

#[test]
fn continuation_byte_sets_high_bits_of_period() {
    let mut s = Sn76489::new();
    s.write(0x80 | 0x0A); // latch channel 0 freq, low = $A
    s.write(0x3F); // continuation, high 6 bits = $3F
    let period = s.channel_period(0);
    assert_eq!(period & 0x0F, 0x0A);
    assert_eq!((period >> 4) & 0x3F, 0x3F);
}

#[test]
fn volume_writes_set_attenuation() {
    let mut s = Sn76489::new();
    s.write(0x90 | 0x05); // channel 0 volume = 5
    assert_eq!(s.channel_attenuation(0), 5);
}

#[test]
fn synthesize_produces_non_zero_for_loud_tone() {
    let mut s = Sn76489::new();
    s.write(0x80 | 0x04); // channel 0 period low = 4
    s.write(0x10); // period high = $10 (full period = $104 = 260)
    s.write(0x90); // channel 0 volume = 0 (loud)
    let samples = s.synthesize(44100, 1024);
    assert!(samples.iter().any(|&v| v != 0));
}
