use kernel_core::console::font::{cell_width, glyph_choice, glyph_for, is_zero_width, Font, GlyphRef, REPLACEMENT};

#[test]
fn ascii_is_one_cell_and_cjk_is_two() {
    assert_eq!(cell_width('a'), 1);
    assert_eq!(cell_width(' '), 1);
    assert_eq!(cell_width('~'), 1);
    assert_eq!(cell_width('é'), 1);
    assert_eq!(cell_width('日'), 2);
    assert_eq!(cell_width('한'), 2);
    assert_eq!(cell_width('Ａ'), 2);
}

#[test]
fn the_zero_width_set_takes_no_cell() {
    for c in ['\u{200B}', '\u{200D}', '\u{200F}', '\u{2060}', '\u{FE0F}', '\u{FEFF}'] {
        assert!(is_zero_width(c), "{c:?}");
        assert_eq!(cell_width(c), 0);
    }
    assert!(!is_zero_width('a'));
    assert!(!is_zero_width('\u{FFFD}'));
}

#[test]
fn characters_the_font_lacks_draw_the_replacement_glyph() {
    let replacement = glyph_for('\u{FFFD}');
    for c in ['😀', '\u{10000}', '\u{10FFFF}', '\u{0}', '\u{1B}', '\u{7F}', '\u{85}'] {
        assert_eq!(glyph_for(c), replacement, "{c:?}");
    }
}

#[test]
fn ordinary_characters_have_their_own_glyphs() {
    let replacement = glyph_for('\u{FFFD}');
    for c in ['a', 'Z', '0', ' ', 'é', 'Ω', 'Ж', '日', '☺', '€'] {
        assert_ne!(glyph_for(c), replacement, "{c:?}");
    }
    assert_ne!(glyph_for('a'), glyph_for('b'));
}

#[test]
fn the_interpreted_controls_count_as_one_cell() {
    for c in ['\n', '\r', '\t', '\u{8}'] {
        assert_eq!(cell_width(c), 1);
    }
}

#[test]
fn the_raw_font_indexes_glyphs_by_byte() {
    let mut data = vec![0u8; 4096];
    for (i, b) in data.iter_mut().enumerate() {
        *b = (i / 16) as u8;
    }
    data[0x41 * 16 + 3] = 0xff;
    let font = Font::new(&data);
    let a = font.glyph(0x41);
    assert_eq!(a[0], 0x41);
    assert_eq!(a[3], 0xff);
    assert_eq!(font.glyph(0xff), [0xff; 16]);
}

#[test]
fn a_glyph_is_chosen_from_the_fonts_answers() {
    assert_eq!(glyph_choice('a', Some(false), None), GlyphRef { code: 'a', wide: false });
    assert_eq!(glyph_choice('中', Some(true), None), GlyphRef { code: '中', wide: true });
    assert_eq!(glyph_choice('\u{10000}', None, Some(false)), GlyphRef { code: REPLACEMENT, wide: false });
    assert_eq!(glyph_choice('\u{7}', Some(false), Some(false)), GlyphRef { code: REPLACEMENT, wide: false });
    assert_eq!(glyph_for('\u{7}'), GlyphRef { code: REPLACEMENT, wide: false });
    assert_eq!(glyph_for('中'), GlyphRef { code: '中', wide: true });
}
