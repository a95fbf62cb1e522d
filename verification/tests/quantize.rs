use dither_batch::dither::{max_level, quantize};

#[test]
fn max_level_per_depth() {
    let expected: [u8; 8] = [1, 3, 7, 15, 31, 63, 127, 255];
    for bits in 1u8..=8 {
        assert_eq!(max_level(bits), expected[(bits - 1) as usize]);
    }
}

#[test]
fn quantize_known_values() {
    // Mid-gray at 4 bits: bias below half rounds down to level 7,
    // half-or-above rounds up to level 8.
    assert_eq!(quantize(128, 4, 0), 119);
    assert_eq!(quantize(128, 4, 4), 119);
    assert_eq!(quantize(128, 4, 8), 136);
    assert_eq!(quantize(128, 4, 12), 136);
    // The extremes stay put whatever the bias.
    assert_eq!(quantize(0, 4, 0), 0);
    assert_eq!(quantize(0, 4, 15), 0);
    assert_eq!(quantize(255, 4, 0), 255);
    assert_eq!(quantize(255, 4, 15), 255);
    // One bit with the neutral bias is a threshold at mid-gray.
    assert_eq!(quantize(128, 1, 8), 255);
    assert_eq!(quantize(127, 1, 8), 0);
}

#[test]
fn quantize_always_lands_on_a_level() {
    // Every result must be expressible as level * 255 / max_level for
    // some level in [0, max_level].
    for bits in 1u8..=8 {
        let m = max_level(bits) as u32;
        let mut on_level = [false; 256];
        for level in 0..=m {
            on_level[(level * 255 / m) as usize] = true;
        }
        for bayer in 0u8..16 {
            for v in 0..=255u8 {
                let r = quantize(v, bits, bayer);
                assert!(on_level[r as usize], "v={} bits={} bayer={} r={}", v, bits, bayer, r);
            }
        }
    }
}

#[test]
fn quantize_deterministic() {
    for bayer in 0u8..16 {
        for v in 0..=255u8 {
            assert_eq!(quantize(v, 5, bayer), quantize(v, 5, bayer));
        }
    }
}

#[test]
fn quantize_idempotent_on_aligned_levels() {
    // At 4 bits every output value is an exact multiple of 255/15, so
    // re-quantizing reproduces it for every bias.
    for bayer in 0u8..16 {
        for v in 0..=255u8 {
            let w = quantize(v, 4, bayer);
            assert_eq!(quantize(w, 4, bayer), w);
        }
    }
}

#[test]
fn quantize_not_idempotent_in_general() {
    // At 5 bits the re-expanded levels are truncated, so a second pass
    // with a downward bias can land on a different level.
    let w = quantize(9, 5, 0);
    assert_eq!(w, 8);
    assert_eq!(quantize(w, 5, 0), 0);
    assert_ne!(quantize(w, 5, 0), w);
}
