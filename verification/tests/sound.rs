//! The SN76489 synthesiser.

use bbc_micro_emu::sn76489::Sn76489;

#[test]
fn sn76489_pure_tone_generates_alternating_pcm() {
    let mut s = Sn76489::new();
    // Channel 0: period $100 (mid-range), volume = 0 (loud).
    s.write(0x80); // latch ch0 freq, low nibble = 0
    s.write(0x10); // continuation, high 6 bits = $10 -> period = $100
    s.write(0x90); // latch ch0 volume = 0
    let pcm = s.synthesize(44_100, 2048);

    let positive = pcm.iter().filter(|&&v| v > 100).count();
    let negative = pcm.iter().filter(|&&v| v < -100).count();
    assert!(
        positive > 100 && negative > 100,
        "expected square-wave PCM with both halves loud — got {positive} positive, {negative} negative",
    );
}

#[test]
fn sn76489_is_audible_only_after_volume_set() {
    let mut s = Sn76489::new();
    assert!(!s.is_audible(), "should be silent at power-on");
    s.write(0x80);
    s.write(0x10);
    assert!(!s.is_audible(), "still silent without volume command");
    s.write(0x90);
    assert!(
        s.is_audible(),
        "should be audible after volume + period set"
    );
}
