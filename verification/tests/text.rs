use arena::font::{
    DistanceFieldInfo, Font, FontCommonInfo, FontData, FontError, FontInfo, Glyph, quad_indices,
};

fn glyph(character: char, width: u32, height: u32, x: u32, y: u32, xoffset: i32, yoffset: i32, xadvance: u32) -> Glyph {
    Glyph {
        id: character as u32,
        index: 0,
        page: 0,
        character,
        width,
        height,
        x,
        y,
        xoffset,
        yoffset,
        xadvance,
        chnl: 15,
    }
}

fn sample_font_data() -> FontData {
    FontData {
        pages: vec![String::from("page0.png")],
        glyphs: vec![
            glyph('?', 8, 10, 0, 0, 1, 2, 9),
            glyph('a', 6, 7, 16, 0, 1, 3, 7),
            glyph(' ', 0, 0, 0, 0, 0, 0, 4),
        ],
        info: FontInfo {
            face: String::from("Sample"),
            size: 32,
            bold: 0,
            italic: 0,
            charset: vec!['?', 'a', ' '],
            unicode: 1,
            stretch_h: 100,
            smooth: 1,
            aa: 1,
            padding: [2, 2, 2, 2],
            spacing: [0, 0],
        },
        common: FontCommonInfo {
            line_height: 12,
            base: 10,
            scale_w: 256,
            scale_h: 128,
            pages: 1,
            packed: 0,
            alpha_channel: 0,
            red_channel: 4,
            green_channel: 4,
            blue_channel: 4,
        },
        distance_field: DistanceFieldInfo {
            field_type: String::from("msdf"),
            distance_range: 4,
        },
    }
}

#[test]
fn font_rejects_missing_fallback() {
    let r = Font::from_data(sample_font_data(), 'x');
    assert_eq!(r.err(), Some(FontError::UnknownCharMissing));
}

#[test]
fn font_glyph_lookup() {
    let f = Font::from_data(sample_font_data(), '?').unwrap();
    let a = f.glyph('a').unwrap();
    assert_eq!(a.x, 16);
    assert_eq!(a.width, 6);
    assert!(f.glyph('z').is_none());
    assert_eq!(f.unknown_glyph().character, '?');
}

#[test]
fn layout_places_glyphs_and_breaks_lines() {
    let f = Font::from_data(sample_font_data(), '?').unwrap();
    let chars: Vec<char> = "a a\na".chars().collect();
    let quads = f.layout_text(&chars);
    assert_eq!(quads.len(), 3);

    // First 'a' from the origin cursor.
    assert_eq!((quads[0].x0, quads[0].y0, quads[0].x1, quads[0].y1), (21, 23, 27, 30));
    assert_eq!((quads[0].u0, quads[0].v0, quads[0].u1, quads[0].v1), (16, 0, 22, 7));

    // The space is zero-sized: it only advances the cursor by 4.
    assert_eq!((quads[1].x0, quads[1].y0), (32, 23));

    // The newline returns the cursor and drops one line height.
    assert_eq!((quads[2].x0, quads[2].y0), (21, 35));
}

#[test]
fn layout_falls_back_to_unknown_glyph() {
    let f = Font::from_data(sample_font_data(), '?').unwrap();
    let chars: Vec<char> = "z".chars().collect();
    let quads = f.layout_text(&chars);
    assert_eq!(quads.len(), 1);
    assert_eq!((quads[0].x0, quads[0].y0, quads[0].x1, quads[0].y1), (21, 22, 29, 32));
    assert_eq!((quads[0].u0, quads[0].v0, quads[0].u1, quads[0].v1), (0, 0, 8, 10));
}

#[test]
fn layout_of_empty_text() {
    let f = Font::from_data(sample_font_data(), '?').unwrap();
    let quads = f.layout_text(&Vec::new());
    assert_eq!(quads.len(), 0);
}

#[test]
fn quad_index_pattern() {
    assert_eq!(quad_indices(0), Vec::<u32>::new());
    assert_eq!(quad_indices(2), vec![0, 1, 2, 0, 2, 3, 4, 5, 6, 4, 6, 7]);
}
