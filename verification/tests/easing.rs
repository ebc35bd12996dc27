use funfriend::ease::{ease_in_out, lerp, BLEND_ONE, EASE_ONE};

#[test]
fn ease_starts_at_zero() {
    assert_eq!(ease_in_out(0), 0);
}

#[test]
fn ease_ends_at_one() {
    assert_eq!(ease_in_out(EASE_ONE), BLEND_ONE);
}

#[test]
fn ease_half_is_half() {
    assert_eq!(ease_in_out(EASE_ONE / 2), BLEND_ONE / 2);
}

#[test]
fn ease_is_symmetric_about_half() {
    for t in [1u64, 137, 4096, 10000, 32768, 50000, 65535] {
        assert_eq!(ease_in_out(EASE_ONE - t) + ease_in_out(t), BLEND_ONE);
    }
}

#[test]
fn ease_is_monotone() {
    let mut prev = ease_in_out(0);
    let mut t = 0u64;
    while t <= EASE_ONE {
        let v = ease_in_out(t);
        assert!(v >= prev);
        prev = v;
        t += 97;
    }
    assert!(ease_in_out(EASE_ONE) >= prev);
}

#[test]
fn ease_in_slow_out_fast_middle() {
    // slow near the ends, fastest in the middle
    let start = ease_in_out(4096) - ease_in_out(0);
    let middle = ease_in_out(EASE_ONE / 2 + 2048) - ease_in_out(EASE_ONE / 2 - 2048);
    assert!(start < middle);
}

#[test]
fn lerp_endpoints_exact() {
    assert_eq!(lerp(100, 900, 0), 100);
    assert_eq!(lerp(100, 900, BLEND_ONE), 900);
    assert_eq!(lerp(900, 100, 0), 900);
    assert_eq!(lerp(900, 100, BLEND_ONE), 100);
}

#[test]
fn lerp_midpoint() {
    assert_eq!(lerp(0, 1000, BLEND_ONE / 2), 500);
}

#[test]
fn lerp_stays_on_segment() {
    let mut blend = 0u64;
    let mut prev = lerp(-500, 700, 0);
    while blend <= BLEND_ONE {
        let v = lerp(-500, 700, blend);
        assert!((-500..=700).contains(&v));
        assert!(v >= prev);
        prev = v;
        blend += BLEND_ONE / 64;
    }
}
