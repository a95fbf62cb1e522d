use dither_batch::profile::{AlphaRule, FormatProfile};

#[test]
fn profile_4444() {
    let p = FormatProfile::from_mode("4444");
    assert_eq!(p.r_bits, 4);
    assert_eq!(p.g_bits, 4);
    assert_eq!(p.b_bits, 4);
    assert_eq!(p.alpha, AlphaRule::Quantize { bits: 4 });
    assert_eq!(p.channels(), 4);
}

#[test]
fn profile_1555() {
    let p = FormatProfile::from_mode("1555");
    assert_eq!(p.r_bits, 5);
    assert_eq!(p.g_bits, 5);
    assert_eq!(p.b_bits, 5);
    assert_eq!(p.alpha, AlphaRule::Threshold);
    assert_eq!(p.channels(), 4);
}

#[test]
fn profile_565() {
    let p = FormatProfile::from_mode("565");
    assert_eq!(p.r_bits, 5);
    assert_eq!(p.g_bits, 6);
    assert_eq!(p.b_bits, 5);
    assert_eq!(p.alpha, AlphaRule::Drop);
    assert_eq!(p.channels(), 3);
}

#[test]
fn unrecognized_mode_falls_back_to_565() {
    assert_eq!(FormatProfile::from_mode("bogus"), FormatProfile::from_mode("565"));
    assert_eq!(FormatProfile::from_mode(""), FormatProfile::from_mode("565"));
    assert_eq!(FormatProfile::from_mode("4445"), FormatProfile::from_mode("565"));
    assert_eq!(FormatProfile::from_mode("15555"), FormatProfile::from_mode("565"));
}
