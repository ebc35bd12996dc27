use funfriend::texture::{SizedTexture, TextureBasket};

fn frames(n: usize) -> Vec<SizedTexture> {
    let mut v = Vec::new();
    for i in 0..n {
        v.push(SizedTexture { tex: i as u32, width: 75, height: 75 });
    }
    v
}

#[test]
fn frame_wraps_after_full_cycle() {
    // 10 fps over 40 frames: at 4.05 s exactly 40 whole frames have passed,
    // wrapping back to the first one.
    let mut b = TextureBasket::new(frames(40), 10);
    b.update(4050);
    assert_eq!(b.frame(), 0);
}

#[test]
fn frame_advances_with_time() {
    let mut b = TextureBasket::new(frames(40), 10);
    b.update(150);
    assert_eq!(b.frame(), 1);
}

#[test]
fn frame_starts_at_zero() {
    let b = TextureBasket::new(frames(40), 10);
    assert_eq!(b.frame(), 0);
    assert_eq!(b.texture().tex, 0);
}

#[test]
fn texture_follows_frame() {
    let mut b = TextureBasket::new(frames(4), 2);
    b.update(1500);
    assert_eq!(b.frame(), 3);
    assert_eq!(b.texture().tex, 3);
    b.update(500);
    assert_eq!(b.frame(), 0);
}
