use funfriend::font_manager::{FontMan, FontError, BMChar, BMCommon, BMSheet};

const DESCRIPTOR: &str = "info face=\"SpaceMono\" size=32\n\
common lineHeight=32 base=26 scaleW=256 scaleH=256\n\
char id=65 x=0 y=0 width=20 height=24 xoffset=1 yoffset=2 xadvance=10 letter=\"A\"\n\
char id=66 x=20 y=0 width=18 height=24 xoffset=1 yoffset=2 xadvance=8 letter=\"B\"\n\
kerning first=65 second=66 amount=-1\n";

fn sheet() -> BMSheet {
    FontMan::parse_bm(DESCRIPTOR).unwrap()
}

#[test]
fn parse_bm_reads_common() {
    let s = sheet();
    assert_eq!(s.common.line_height, 32);
    assert_eq!(s.common.base, 26);
    assert_eq!(s.common.scale_w, 256);
    assert_eq!(s.common.scale_h, 256);
}

#[test]
fn parse_bm_reads_glyphs() {
    let s = sheet();
    assert_eq!(s.chars.len(), 2);
    assert_eq!(s.chars[0].letter, 'A');
    assert_eq!(s.chars[0].x_advance, 10);
    assert_eq!(s.chars[1].letter, 'B');
    assert_eq!(s.chars[1].x_advance, 8);
    assert_eq!(s.chars[1].x, 20);
}

#[test]
fn parse_bm_reads_kerning() {
    let s = sheet();
    assert_eq!(s.kernings.len(), 1);
    assert_eq!(s.kernings[0].first, 65);
    assert_eq!(s.kernings[0].second, 66);
    assert_eq!(s.kernings[0].amount, -1);
}

#[test]
fn parse_bm_skips_malformed_lines() {
    let text = "common lineHeight=32 base=26 scaleW=256 scaleH=256\n\
some junk the format does not know\n\
char id=67 x=oops y=0 width=1 height=1 xoffset=0 yoffset=0 xadvance=5 letter=\"C\"\n\
char id=65 x=0 y=0 width=20 height=24 xoffset=1 yoffset=2 xadvance=10 letter=\"A\"\n";
    let s = FontMan::parse_bm(text).unwrap();
    assert_eq!(s.chars.len(), 1);
    assert_eq!(s.chars[0].letter, 'A');
}

#[test]
fn parse_bm_without_common_fails() {
    let text = "char id=65 x=0 y=0 width=20 height=24 xoffset=1 yoffset=2 xadvance=10 letter=\"A\"\n";
    assert_eq!(FontMan::parse_bm(text), Err(FontError::MissingCommon));
    assert_eq!(FontMan::parse_bm(""), Err(FontError::MissingCommon));
}

#[test]
fn parse_bm_space_glyph() {
    let text = "common lineHeight=32 base=26 scaleW=256 scaleH=256\n\
char id=32 x=0 y=0 width=0 height=0 xoffset=0 yoffset=0 xadvance=9 letter=\" \"\n";
    let s = FontMan::parse_bm(text).unwrap();
    assert_eq!(s.chars.len(), 1);
    assert_eq!(s.chars[0].letter, ' ');
}

#[test]
fn parse_args_reads_pairs() {
    let pairs = FontMan::parse_args("lineHeight=32 letter=\"A\" base=-3");
    assert_eq!(pairs.len(), 3);
    assert_eq!(pairs[0], ("lineHeight".to_string(), "32".to_string()));
    assert_eq!(pairs[1], ("letter".to_string(), "A".to_string()));
    assert_eq!(pairs[2], ("base".to_string(), "-3".to_string()));
}

#[test]
fn parse_args_collapses_whitespace() {
    let pairs = FontMan::parse_args("a=1\t\t b=2");
    assert_eq!(pairs, vec![("a".to_string(), "1".to_string()), ("b".to_string(), "2".to_string())]);
}

#[test]
fn text_width_sums_advances() {
    // 'A' advances 10 and 'B' advances 8, so "AB" is 18 wide.
    let s = sheet();
    assert_eq!(FontMan::text_width("AB", &s), Some(18));
    assert_eq!(FontMan::text_width("", &s), Some(0));
    assert_eq!(FontMan::text_width("ABBA", &s), Some(36));
}

#[test]
fn text_width_unknown_glyph() {
    let s = sheet();
    assert_eq!(FontMan::text_width("AZ", &s), None);
}

#[test]
fn position_text_places_glyphs() {
    let s = sheet();
    let (w, lh, ps) = FontMan::position_text("AB", &s).unwrap();
    assert_eq!(w, 18);
    assert_eq!(lh, 32);
    assert_eq!(ps.len(), 2);
    // x: running advance plus the glyph's own offset
    assert_eq!(ps[0].0, 1);
    assert_eq!(ps[1].0, 11);
    // y: base - height - yoffset
    assert_eq!(ps[0].1, 0);
    assert_eq!(ps[1].1, 0);
    assert_eq!(ps[0].2.letter, 'A');
    assert_eq!(ps[1].2.letter, 'B');
}

#[test]
fn position_text_unknown_glyph() {
    let s = sheet();
    assert!(FontMan::position_text("AZB", &s).is_none());
}

#[test]
fn text_mesh_quads_and_indices() {
    let s = sheet();
    let (quads, indices) = FontMan::get_text_mesh("AB", &s, 5, 7).unwrap();
    assert_eq!(quads.len(), 2);
    assert_eq!(quads[0].x, 6);
    assert_eq!(quads[0].y, 7);
    assert_eq!(quads[0].w, 20);
    assert_eq!(quads[0].h, 24);
    assert_eq!(quads[0].u, 0);
    assert_eq!(quads[0].v, 0);
    assert_eq!(quads[1].x, 16);
    assert_eq!(quads[1].u, 20);
    assert_eq!(indices, vec![0, 1, 3, 1, 2, 3, 4, 5, 7, 5, 6, 7]);
}

#[test]
fn find_glyph_first_match() {
    let mut s = sheet();
    // a second glyph mapped to 'A' is shadowed by the first
    let mut dup = s.chars[1];
    dup.letter = 'A';
    dup.x_advance = 99;
    s.chars.push(dup);
    assert_eq!(funfriend::font_manager::find_glyph(&s, 'A').unwrap().x_advance, 10);
    assert!(funfriend::font_manager::find_glyph(&s, 'Q').is_none());
}

#[test]
fn parse_i32_values() {
    assert_eq!(funfriend::font_manager::parse_i32("0"), Some(0));
    assert_eq!(funfriend::font_manager::parse_i32("-3"), Some(-3));
    assert_eq!(funfriend::font_manager::parse_i32("2147483647"), Some(i32::MAX));
    assert_eq!(funfriend::font_manager::parse_i32("-2147483648"), Some(i32::MIN));
    assert_eq!(funfriend::font_manager::parse_i32("2147483648"), None);
    assert_eq!(funfriend::font_manager::parse_i32(""), None);
    assert_eq!(funfriend::font_manager::parse_i32("-"), None);
    assert_eq!(funfriend::font_manager::parse_i32("12a"), None);
    assert_eq!(funfriend::font_manager::parse_i32("99999999999999999999"), None);
}

#[test]
fn duplicate_key_last_wins() {
    // a later duplicate key overrides an earlier one
    let text = "common lineHeight=1 lineHeight=32 base=26 scaleW=256 scaleH=256\n";
    let s = FontMan::parse_bm(text).unwrap();
    assert_eq!(s.common.line_height, 32);

    let pairs = FontMan::parse_args("a=1 a=2");
    assert_eq!(pairs.len(), 2);
    assert_eq!(
        funfriend::font_manager::lookup(&pairs, &"a".to_string()),
        Some(&"2".to_string())
    );
}

#[test]
fn mapped_text_skips_unmapped() {
    let s = sheet();
    assert_eq!(funfriend::font_manager::mapped_text("AZB?", &s), "AB");
    assert_eq!(funfriend::font_manager::mapped_text("AB", &s), "AB");
    assert_eq!(funfriend::font_manager::mapped_text("", &s), "");
}

#[test]
fn later_common_wins() {
    let text = "common lineHeight=32 base=26 scaleW=256 scaleH=256\n\
common lineHeight=16 base=13 scaleW=128 scaleH=128\n";
    let s = FontMan::parse_bm(text).unwrap();
    assert_eq!(
        s.common,
        BMCommon { line_height: 16, base: 13, scale_w: 128, scale_h: 128 }
    );
}

#[test]
fn glyph_record_roundtrip() {
    let s = sheet();
    let a = BMChar {
        id: 65,
        x: 0,
        y: 0,
        width: 20,
        height: 24,
        x_offset: 1,
        y_offset: 2,
        x_advance: 10,
        letter: 'A',
    };
    assert_eq!(s.chars[0], a);
}
