use funfriend::chatter::{ChatterBubble, ChatterBubbleManager, BUBBLE_GAP, BUBBLE_PADDING,
    BUBBLE_RISE, DEFAULT_DURATION_MS};
use funfriend::font_manager::FontMan;
use funfriend::vec2::Vec2;

const DESCRIPTOR: &str = "common lineHeight=32 base=26 scaleW=256 scaleH=256\n\
char id=65 x=0 y=0 width=20 height=24 xoffset=1 yoffset=2 xadvance=10 letter=\"A\"\n\
char id=66 x=20 y=0 width=18 height=24 xoffset=1 yoffset=2 xadvance=8 letter=\"B\"\n";

#[test]
fn bubble_sized_to_text() {
    let sheet = FontMan::parse_bm(DESCRIPTOR).unwrap();
    let b = ChatterBubble::new("AB", &sheet, Vec2 { x: 0, y: 0 }, DEFAULT_DURATION_MS);
    assert_eq!(b.width, 18 + 2 * BUBBLE_PADDING);
    assert_eq!(b.height, 32 + 2 * BUBBLE_PADDING);
    assert_eq!(b.timer_ms, DEFAULT_DURATION_MS);
    assert_eq!(b.text, "AB");
}

#[test]
fn bubble_skips_unmapped_characters() {
    // a character without a glyph is skipped, not fatal: the bubble keeps
    // and is sized to the drawable subsequence
    let sheet = FontMan::parse_bm(DESCRIPTOR).unwrap();
    let b = ChatterBubble::new("AZ", &sheet, Vec2 { x: 0, y: 0 }, 1000);
    assert_eq!(b.text, "A");
    assert_eq!(b.width, 10 + 2 * BUBBLE_PADDING);
    let empty = ChatterBubble::new("??", &sheet, Vec2 { x: 0, y: 0 }, 1000);
    assert_eq!(empty.text, "");
    assert_eq!(empty.width, 2 * BUBBLE_PADDING);
}

#[test]
fn bubble_expires_on_its_timer() {
    let sheet = FontMan::parse_bm(DESCRIPTOR).unwrap();
    let mut b = ChatterBubble::new("A", &sheet, Vec2 { x: 0, y: 0 }, 100);
    assert!(!b.should_close());
    b.update(60);
    assert!(!b.should_close());
    b.update(60);
    assert!(b.should_close());
}

#[test]
fn bubble_follows_anchor() {
    let sheet = FontMan::parse_bm(DESCRIPTOR).unwrap();
    let b = ChatterBubble::new("A", &sheet, Vec2 { x: 3, y: -40 }, 100);
    assert_eq!(b.position(Vec2 { x: 100, y: 200 }), Vec2 { x: 103, y: 160 });
    assert_eq!(b.position(Vec2 { x: 0, y: 0 }), Vec2 { x: 3, y: -40 });
}

#[test]
fn bump_moves_one_slot_up() {
    let sheet = FontMan::parse_bm(DESCRIPTOR).unwrap();
    let mut b = ChatterBubble::new("A", &sheet, Vec2 { x: 0, y: -20 }, 100);
    let h = b.height;
    b.bump();
    assert_eq!(b.rel, Vec2 { x: 0, y: -20 - h - BUBBLE_GAP });
}

#[test]
fn chain_stacks_upward() {
    let sheet = FontMan::parse_bm(DESCRIPTOR).unwrap();
    let mut m = ChatterBubbleManager::new();
    let lines = vec!["A".to_string(), "AB".to_string(), "B".to_string()];
    m.spawn_chain(&lines, &sheet, DEFAULT_DURATION_MS);
    assert_eq!(m.bubbles.len(), 3);
    let slot = 32 + 2 * BUBBLE_PADDING + BUBBLE_GAP;
    for (k, b) in m.bubbles.iter().enumerate() {
        assert_eq!(b.rel.x, 0);
        assert_eq!(b.rel.y, -(BUBBLE_RISE + slot * k as i64));
        assert_eq!(b.text, lines[k]);
    }
    assert_eq!(m.bubbles[0].width, 10 + 2 * BUBBLE_PADDING);
    assert_eq!(m.bubbles[1].width, 18 + 2 * BUBBLE_PADDING);
}

#[test]
fn chain_keeps_lines_with_unmapped_characters() {
    // each line still gets its slot; only the unmapped characters vanish
    let sheet = FontMan::parse_bm(DESCRIPTOR).unwrap();
    let mut m = ChatterBubbleManager::new();
    let lines = vec!["A".to_string(), "Z?".to_string(), "BZA".to_string()];
    m.spawn_chain(&lines, &sheet, DEFAULT_DURATION_MS);
    assert_eq!(m.bubbles.len(), 3);
    assert_eq!(m.bubbles[0].text, "A");
    assert_eq!(m.bubbles[1].text, "");
    assert_eq!(m.bubbles[1].width, 2 * BUBBLE_PADDING);
    assert_eq!(m.bubbles[2].text, "BA");
    assert_eq!(m.bubbles[2].width, 18 + 2 * BUBBLE_PADDING);
    let slot = 32 + 2 * BUBBLE_PADDING + BUBBLE_GAP;
    assert_eq!(m.bubbles[1].rel.y, -(BUBBLE_RISE + slot));
    assert_eq!(m.bubbles[2].rel.y, -(BUBBLE_RISE + 2 * slot));
}

#[test]
fn retire_removes_only_expired() {
    let sheet = FontMan::parse_bm(DESCRIPTOR).unwrap();
    let mut m = ChatterBubbleManager::new();
    m.spawn_chain(&vec!["A".to_string()], &sheet, 100);
    m.spawn_chain(&vec!["B".to_string()], &sheet, 500);
    m.spawn_chain(&vec!["AB".to_string()], &sheet, 900);
    m.update(300);
    m.retire();
    assert_eq!(m.bubbles.len(), 2);
    assert_eq!(m.bubbles[0].text, "B");
    assert_eq!(m.bubbles[0].timer_ms, 200);
    assert_eq!(m.bubbles[1].text, "AB");
    assert_eq!(m.bubbles[1].timer_ms, 600);
}
