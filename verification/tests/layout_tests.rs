use nftver::layout::{is_control_char, is_whitespace_char};
use nftver::{layout_paragraph, FontGlyph, Glyph, KernPair, Point, ScaledFont};

// A face in which every glyph advances 10 pixels, a line is 14 pixels high
// and the baseline lies 10 pixels below the top of its line.
fn even_font() -> ScaledFont {
    let mut glyphs = Vec::new();
    for ch in ['a', 'b', 'c', ' ', '\u{a0}'] {
        glyphs.push(FontGlyph { ch, advance: 640, outline: None });
    }
    ScaledFont {
        ascent: 640,
        height: 768,
        line_gap: 128,
        glyphs,
        kerning: vec![
            KernPair { left: 'a', right: 'b', adjust: -64 },
            KernPair { left: 'b', right: 'a', adjust: 32 },
            KernPair { left: 'a', right: 'b', adjust: 500 },
        ],
    }
}

fn layout(font: &ScaledFont, origin: (i64, i64), max_width: i64, text: &str) -> Vec<Glyph> {
    let mut target = Vec::new();
    layout_paragraph(font, Point { x: origin.0, y: origin.1 }, max_width, text, &mut target);
    target
}

fn positions(glyphs: &[Glyph]) -> Vec<(char, i64, i64)> {
    glyphs.iter().map(|g| (g.ch, g.position.x, g.position.y)).collect()
}

#[test]
fn layout_of_empty_text_is_empty() {
    let font = even_font();
    assert!(layout(&font, (0, 0), 6400, "").is_empty());
}

#[test]
fn layout_of_control_codes_only_is_empty() {
    let font = even_font();
    assert!(layout(&font, (0, 0), 6400, "\n\t\r\u{7f}\u{9f}").is_empty());
}

#[test]
fn layout_starts_on_the_baseline() {
    let font = even_font();
    let glyphs = layout(&font, (128, 64), 6400, "c");
    assert_eq!(
        glyphs,
        vec![Glyph { ch: 'c', advance: 640, position: Point { x: 128, y: 64 + 640 } }]
    );
}

#[test]
fn layout_advances_the_pen() {
    let font = even_font();
    let glyphs = layout(&font, (100, 0), 64000, "ccc");
    assert_eq!(positions(&glyphs), vec![('c', 100, 640), ('c', 740, 640), ('c', 1380, 640)]);
}

#[test]
fn layout_kerns_against_the_glyph_before() {
    let font = even_font();
    let glyphs = layout(&font, (0, 0), 64000, "abab");
    // a at 0; b at 640 - 64; a at 576 + 640 + 32; b at 1248 + 640 - 64
    assert_eq!(
        positions(&glyphs),
        vec![('a', 0, 640), ('b', 576, 640), ('a', 1248, 640), ('b', 1824, 640)]
    );
}

#[test]
fn layout_kerns_across_a_skipped_control_code() {
    let font = even_font();
    let glyphs = layout(&font, (0, 0), 64000, "a\tb");
    assert_eq!(positions(&glyphs), vec![('a', 0, 640), ('b', 576, 640)]);
}

#[test]
fn layout_newline_starts_a_line_without_kerning() {
    let font = even_font();
    let glyphs = layout(&font, (64, 0), 64000, "a\nb\n\nc");
    // a line is 768 + 128 high
    assert_eq!(
        positions(&glyphs),
        vec![('a', 64, 640), ('b', 64, 640 + 896), ('c', 64, 640 + 3 * 896)]
    );
}

#[test]
fn layout_missing_glyph_takes_no_room() {
    let font = even_font();
    let glyphs = layout(&font, (0, 0), 64000, "azc");
    assert_eq!(glyphs[1], Glyph { ch: 'z', advance: 0, position: Point { x: 640, y: 640 } });
    assert_eq!(glyphs[2].position, Point { x: 640, y: 640 });
}

#[test]
fn layout_twice_gives_the_same() {
    let font = even_font();
    let text = "abab ccc\nab a\u{a0}b zz";
    let first = layout(&font, (17, 5), 2000, text);
    let second = layout(&font, (17, 5), 2000, text);
    assert_eq!(first, second);
    assert_eq!(first.len(), 17);
}

#[test]
fn layout_twice_on_one_target_repeats_the_glyphs() {
    let font = even_font();
    let text = "ab ccc\nabab c";
    let mut target = Vec::new();
    layout_paragraph(&font, Point { x: 64, y: 32 }, 1500, text, &mut target);
    let n = target.len();
    assert_eq!(n, 12);
    layout_paragraph(&font, Point { x: 64, y: 32 }, 1500, text, &mut target);
    assert_eq!(target.len(), 2 * n);
    for i in 0..n {
        assert_eq!(target[n + i], target[i]);
    }
}

#[test]
fn layout_of_two_words_in_a_width_that_holds_the_space() {
    let font = even_font();
    // "aaaa " ends at 3200 and fits; "aaaa b" would end at 3840
    let glyphs = layout(&font, (0, 0), 3200, "aaaa bbbb");
    assert_eq!(
        positions(&glyphs),
        vec![
            ('a', 0, 640),
            ('a', 640, 640),
            ('a', 1280, 640),
            ('a', 1920, 640),
            (' ', 2560, 640),
            ('b', 0, 1536),
            ('b', 0, 1536),
            ('b', 640, 1536),
            ('b', 1280, 1536),
        ]
    );
}

#[test]
fn layout_appends_to_the_target() {
    let font = even_font();
    let mut target = layout(&font, (0, 0), 64000, "c");
    layout_paragraph(&font, Point { x: 0, y: 0 }, 64000, "cc", &mut target);
    assert_eq!(positions(&target), vec![('c', 0, 640), ('c', 0, 640), ('c', 640, 640)]);
}

#[test]
fn layout_wraps_word_after_space() {
    let font = even_font();
    // "cccc " is 50 pixels wide; the first glyph of the second word ends at 60
    let glyphs = layout(&font, (0, 0), 55 * 64, "cccc cccc");
    assert_eq!(
        positions(&glyphs),
        vec![
            ('c', 0, 640),
            ('c', 640, 640),
            ('c', 1280, 640),
            ('c', 1920, 640),
            (' ', 2560, 640),
            ('c', 0, 1536),
            ('c', 0, 1536),
            ('c', 640, 1536),
            ('c', 1280, 1536),
        ]
    );
}

#[test]
fn layout_respects_wrap_policy() {
    let font = even_font();
    // the width holds "aaaa" but neither the space after it nor "aaaa bbbb"
    let origin_x = 192;
    let glyphs = layout(&font, (origin_x, 0), 2600, "aaaa bbbb");
    assert_eq!(glyphs.len(), 9);
    // the space stays on the first line though the pen passes the width
    assert_eq!(glyphs[4].ch, ' ');
    assert_eq!(glyphs[4].position, Point { x: origin_x + 2560, y: 640 });
    assert!(glyphs[4].position.x + 640 > origin_x + 2600);
    // the second word starts at the origin's x on the next line
    assert_eq!(glyphs[5].ch, 'b');
    assert_eq!(glyphs[5].position, Point { x: origin_x, y: 640 + 896 });
    for glyph in &glyphs[5..] {
        assert_eq!(glyph.ch, 'b');
        assert_eq!(glyph.position.y, 640 + 896);
    }
    for glyph in &glyphs[..5] {
        assert_eq!(glyph.position.y, 640);
    }
}

#[test]
fn layout_does_not_break_at_no_break_space() {
    let font = even_font();
    let glyphs = layout(&font, (0, 0), 1000, "c\u{a0}\u{a0}");
    assert_eq!(positions(&glyphs), vec![('c', 0, 640), ('\u{a0}', 640, 640), ('\u{a0}', 1280, 640)]);
}

#[test]
fn layout_breaks_every_glyph_in_no_width() {
    let font = even_font();
    let glyphs = layout(&font, (0, 0), -1, "ccc");
    assert_eq!(positions(&glyphs), vec![('c', 0, 1536), ('c', 0, 2432), ('c', 0, 3328)]);
}

#[test]
fn layout_glyph_that_ends_on_the_width_stays() {
    let font = even_font();
    let glyphs = layout(&font, (0, 0), 1280, "ccc");
    assert_eq!(positions(&glyphs), vec![('c', 0, 640), ('c', 640, 640), ('c', 0, 1536)]);
}

#[test]
fn layout_first_kerning_entry_counts() {
    let font = even_font();
    assert_eq!(font.kern('a', 'b'), -64);
    assert_eq!(font.kern('b', 'a'), 32);
    assert_eq!(font.kern('a', 'a'), 0);
    assert_eq!(font.h_advance('a'), 640);
    assert_eq!(font.h_advance('z'), 0);
    assert!(font.glyph('z').is_none());
    assert_eq!(font.glyph('b').unwrap().ch, 'b');
}

#[test]
fn control_codes_are_those_of_std() {
    for code in 0..=0x10ffffu32 {
        if let Some(c) = char::from_u32(code) {
            assert_eq!(is_control_char(c), c.is_control(), "U+{:04X}", code);
        }
    }
}

#[test]
fn white_space_is_that_of_std() {
    for code in 0..=0x10ffffu32 {
        if let Some(c) = char::from_u32(code) {
            assert_eq!(is_whitespace_char(c), c.is_whitespace(), "U+{:04X}", code);
        }
    }
}
