use nftver::nft::{
    body_from_symbol, compose_footer, compose_header, draw_description, draw_hash,
    draw_public_key, draw_tag, draw_timestamp, draw_title, generate_body, generate_certificate,
    generate_footer, generate_header, Content, Fonts,
};
use nftver::qr::qr_bitmap;
use nftver::{fill, Bitmap, FontGlyph, Outline, RenderError, RgbaImage, ScaledFont};

// A face in which every letter, digit, point and space advances `advance`
// pixels and every character but the space marks one opaque pixel on the
// baseline row, at the pen.
fn dotted_font(advance: i32, height: i32) -> ScaledFont {
    let mut glyphs = Vec::new();
    for ch in "abcdefghijklmnopqrstuvwxyzRTZ0123456789.:-+".chars() {
        let coverage = Bitmap::new(1, 1, vec![255]).unwrap();
        glyphs.push(FontGlyph {
            ch,
            advance: advance * 64,
            outline: Some(Outline { left: 0, top: -1, coverage }),
        });
    }
    glyphs.push(FontGlyph { ch: ' ', advance: advance * 64, outline: None });
    ScaledFont { ascent: (height - 2) * 64, height: height * 64, line_gap: 0, glyphs, kerning: Vec::new() }
}

fn fonts() -> Fonts {
    Fonts {
        title: dotted_font(6, 30),
        tag: dotted_font(5, 24),
        description: dotted_font(4, 20),
        timestamp: dotted_font(2, 12),
        public_key: dotted_font(2, 12),
        hash: dotted_font(1, 10),
    }
}

fn solid(width: u32, height: u32, colour: [u8; 4]) -> RgbaImage {
    let mut image = RgbaImage::new(width, height).unwrap();
    fill(&mut image, colour);
    image
}

fn rightmost_marked_column(image: &RgbaImage) -> Option<u32> {
    let mut rightmost = None;
    for y in 0..image.height() {
        for x in 0..image.width() {
            if image.get_pixel(x, y).unwrap()[3] != 0 {
                rightmost = Some(rightmost.map_or(x, |r: u32| r.max(x)));
            }
        }
    }
    rightmost
}

#[test]
fn qr_symbol_is_square_and_two_toned() {
    let symbol = qr_bitmap("hello").unwrap();
    let modules = qrcode::QrCode::new("hello").unwrap().width() as u32;
    assert_eq!(symbol.width(), modules * 8);
    assert_eq!(symbol.height(), modules * 8);
    let mut dark = 0;
    let mut light = 0;
    for y in 0..symbol.height() {
        for x in 0..symbol.width() {
            match symbol.sample(x, y) {
                0 => dark += 1,
                255 => light += 1,
                other => panic!("sample {} at ({}, {})", other, x, y),
            }
        }
    }
    assert!(dark > 0 && light > 0);
    // the finder pattern: a dark corner module, then a light ring inside it
    assert_eq!(symbol.sample(0, 0), 0);
    assert_eq!(symbol.sample(8, 8), 255);
    assert_eq!(symbol.sample(16, 16), 0);
}

#[test]
fn qr_symbol_follows_the_modules() {
    let code = qrcode::QrCode::new("v1.0.0").unwrap();
    let modules = code.width();
    let colors = code.to_colors();
    let symbol = qr_bitmap("v1.0.0").unwrap();
    for my in 0..modules {
        for mx in 0..modules {
            let expected = if colors[my * modules + mx] == qrcode::Color::Dark { 0 } else { 255 };
            assert_eq!(symbol.sample(mx as u32 * 8 + 3, my as u32 * 8 + 5), expected);
        }
    }
}

#[test]
fn qr_symbol_of_too_long_payload_is_an_error() {
    let payload = "x".repeat(4000);
    assert!(matches!(qr_bitmap(&payload), Err(RenderError::QrEncoding)));
    assert!(matches!(generate_body(&payload), Err(RenderError::QrEncoding)));
}

#[test]
fn body_of_fifty_characters_is_padded() {
    let payload = "http://example.org/?nftverH=0123456789abcdef&t=v1.";
    assert_eq!(payload.len(), 50);
    let modules = qrcode::QrCode::new(payload).unwrap().width() as u32;
    let body = generate_body(payload).unwrap();
    assert!(body.width() >= modules * 8 + 80);
    assert_eq!(body.width(), modules * 8 + 80);
    assert_eq!(body.height(), modules * 8 + 40);
}

#[test]
fn body_insets_the_symbol() {
    let body = generate_body("hello").unwrap();
    let symbol = qr_bitmap("hello").unwrap();
    for y in 0..body.height() {
        for x in 0..body.width() {
            let inside = x >= 40 && x < 40 + symbol.width() && y >= 20 && y < 20 + symbol.height();
            let expected = if inside {
                let luma = symbol.sample(x - 40, y - 20);
                [luma, luma, luma, 255]
            } else {
                [0, 0, 0, 0]
            };
            assert_eq!(body.get_pixel(x, y), Some(expected));
        }
    }
}

#[test]
fn body_from_a_given_symbol() {
    let symbol = Bitmap::new(2, 1, vec![0, 200]).unwrap();
    let body = body_from_symbol(&symbol);
    assert_eq!((body.width(), body.height()), (82, 41));
    assert_eq!(body.get_pixel(40, 20), Some([0, 0, 0, 255]));
    assert_eq!(body.get_pixel(41, 20), Some([200, 200, 200, 255]));
    assert_eq!(body.get_pixel(39, 20), Some([0, 0, 0, 0]));
    assert_eq!(body.get_pixel(42, 20), Some([0, 0, 0, 0]));
    assert_eq!(body.get_pixel(40, 19), Some([0, 0, 0, 0]));
    assert_eq!(body.get_pixel(40, 21), Some([0, 0, 0, 0]));
}

#[test]
fn field_blocks_have_their_margins() {
    let font = dotted_font(2, 10);
    // a text of 3 glyphs is 6 pixels wide, a line 10 pixels high
    let sizes = |image: RgbaImage| (image.width(), image.height());
    assert_eq!(sizes(draw_title("abc", 500, &font).unwrap()), (6 + 40, 10 + 20));
    assert_eq!(sizes(draw_tag("abc", 500, &font).unwrap()), (6 + 40, 10 + 20));
    assert_eq!(sizes(draw_description("abc", 500, &font).unwrap()), (6 + 80, 10 + 40));
    assert_eq!(sizes(draw_timestamp("abc", 500, &font).unwrap()), (6 + 40, 10 + 10));
    assert_eq!(sizes(draw_public_key("abc", 500, &font).unwrap()), (6 + 40, 10));
    assert_eq!(sizes(draw_hash("abc", 500, &font).unwrap()), (6 + 40, 10 + 12));
}

#[test]
fn field_blocks_are_black() {
    let font = dotted_font(2, 10);
    let image = draw_hash("ab", 500, &font).unwrap();
    // left margin 20, top margin 2; the baseline lies 8 pixels below the top
    assert_eq!(image.get_pixel(20, 2 + 8 - 1), Some([0, 0, 0, 255]));
    assert_eq!(image.get_pixel(22, 2 + 8 - 1), Some([0, 0, 0, 255]));
    assert_eq!(image.get_pixel(21, 2 + 8 - 1), Some([0, 0, 0, 0]));
}

#[test]
fn header_is_as_high_as_its_higher_block() {
    let fonts = fonts();
    let width = 400;
    let title = draw_title("v1.0.0 Release", 280, &fonts.title).unwrap();
    let tag = draw_tag("v1.0.0", 120, &fonts.tag).unwrap();
    let header = generate_header("v1.0.0 Release", "v1.0.0", width, &fonts).unwrap();
    assert_eq!(header.width(), width);
    assert_eq!(header.height(), title.height().max(tag.height()));
    assert_eq!((title.height(), tag.height()), (50, 44));
    // the tag is right-aligned: its marks end within the header
    let rightmost = rightmost_marked_column(&header).unwrap();
    assert!(rightmost <= width - 1);
    let tag_rightmost = rightmost_marked_column(&tag).unwrap();
    assert_eq!(rightmost, width - tag.width() + tag_rightmost);
}

#[test]
fn header_places_title_left_and_tag_right() {
    let fonts = fonts();
    let title = draw_title("ab", 140, &fonts.title).unwrap();
    let tag = draw_tag("cd", 60, &fonts.tag).unwrap();
    let header = generate_header("ab", "cd", 200, &fonts).unwrap();
    let offset = 200 - tag.width();
    for y in 0..header.height() {
        for x in 0..header.width() {
            let mut expected = [0, 0, 0, 0];
            if let Some(px) = title.get_pixel(x, y) {
                expected = nftver::merge_rgba(px, expected);
            }
            if x >= offset {
                if let Some(px) = tag.get_pixel(x - offset, y) {
                    expected = nftver::merge_rgba(px, expected);
                }
            }
            assert_eq!(header.get_pixel(x, y), Some(expected));
        }
    }
    // title: left margin 20, top margin 20, baseline 28 below the top
    assert_eq!(header.get_pixel(20, 20 + 28 - 1), Some([0, 0, 0, 255]));
    // tag: 5 + 5 pixels of glyphs and 40 of margin, so it starts at column 150
    assert_eq!(offset, 150);
    assert_eq!(header.get_pixel(150 + 20, 20 + 22 - 1), Some([0, 0, 0, 255]));
    assert_eq!(header.get_pixel(150 + 25, 20 + 22 - 1), Some([0, 0, 0, 255]));
}

#[test]
fn header_gives_the_title_seven_tenths() {
    let fonts = fonts();
    // 14 glyphs of 6 pixels need 84 pixels; 70% of 177 is 123 less 40 of margin
    let header = generate_header("abcdefghijklmn", "v", 177, &fonts).unwrap();
    assert_eq!(header.width(), 177);
    // in 70% of 176, 123 less 40, the 14th glyph ends at 84 and breaks the line
    let wrapped = draw_title("abcdefghijklmn", 123, &fonts.title).unwrap();
    assert_eq!(wrapped.width(), 40 + 6);
    let kept = draw_title("abcdefghijklmn", 124, &fonts.title).unwrap();
    assert_eq!(kept.width(), 40 + 84);
    let header = generate_header("abcdefghijklmn", "v", 178, &fonts).unwrap();
    assert_eq!(rightmost_marked_column(&header), Some(178 - 45 + 20));
    assert_eq!(header.get_pixel(20 + 13 * 6, 20 + 27), Some([0, 0, 0, 255]));
    let header = generate_header("abcdefghijklmn", "v", 176, &fonts).unwrap();
    assert_eq!(header.get_pixel(20 + 13 * 6, 20 + 27), Some([0, 0, 0, 0]));
}

#[test]
fn header_with_a_block_too_wide_is_an_error() {
    let fonts = fonts();
    // white space never breaks a line: the title's block grows beyond the header
    let result = generate_header("a                                  ", "v", 100, &fonts);
    assert!(matches!(result, Err(RenderError::TooWide)));
    let wide = solid(11, 1, [1, 1, 1, 1]);
    let narrow = solid(2, 1, [1, 1, 1, 1]);
    assert!(matches!(compose_header(&wide, &narrow, 10), Err(RenderError::TooWide)));
    assert!(matches!(compose_header(&narrow, &wide, 10), Err(RenderError::TooWide)));
    assert!(compose_header(&narrow, &wide, 11).is_ok());
}

#[test]
fn header_of_empty_text_is_an_error() {
    let fonts = fonts();
    assert!(matches!(generate_header("", "v1", 100, &fonts), Err(RenderError::EmptyText)));
    assert!(matches!(generate_header("name", "", 100, &fonts), Err(RenderError::EmptyText)));
}

#[test]
fn header_blends_the_tag_over_the_title() {
    let title = solid(4, 2, [0, 0, 255, 255]);
    let tag = solid(2, 3, [255, 0, 0, 128]);
    let header = compose_header(&title, &tag, 5).unwrap();
    assert_eq!((header.width(), header.height()), (5, 3));
    assert_eq!(header.get_pixel(0, 0), Some([0, 0, 255, 255]));
    assert_eq!(header.get_pixel(3, 1), Some([128, 0, 127, 255]));
    assert_eq!(header.get_pixel(4, 1), Some([255, 0, 0, 128]));
    assert_eq!(header.get_pixel(3, 2), Some([255, 0, 0, 128]));
    assert_eq!(header.get_pixel(2, 2), Some([0, 0, 0, 0]));
}

#[test]
fn footer_stacks_its_four_blocks() {
    let hash = solid(4, 1, [1, 1, 1, 255]);
    let description = solid(3, 2, [2, 2, 2, 255]);
    let public_key = solid(2, 3, [3, 3, 3, 255]);
    let timestamp = solid(5, 4, [4, 4, 4, 255]);
    let footer = compose_footer(&hash, &description, &public_key, &timestamp, 11).unwrap();
    assert_eq!((footer.width(), footer.height()), (11, 10));
    for y in 0..10 {
        for x in 0..11 {
            let expected = match y {
                // the hash is centred: (11 - 4) / 2 = 3
                0 if (3..7).contains(&x) => [1, 1, 1, 255],
                1..=2 if x < 3 => [2, 2, 2, 255],
                3..=5 if x < 2 => [3, 3, 3, 255],
                6..=9 if x >= 6 => [4, 4, 4, 255],
                _ => [0, 0, 0, 0],
            };
            assert_eq!(footer.get_pixel(x, y), Some(expected), "({}, {})", x, y);
        }
    }
}

#[test]
fn footer_with_a_block_too_wide_is_an_error() {
    let narrow = solid(2, 1, [1, 1, 1, 255]);
    let wide = solid(9, 1, [1, 1, 1, 255]);
    assert!(matches!(compose_footer(&wide, &narrow, &narrow, &narrow, 8), Err(RenderError::TooWide)));
    assert!(matches!(compose_footer(&narrow, &wide, &narrow, &narrow, 8), Err(RenderError::TooWide)));
    assert!(matches!(compose_footer(&narrow, &narrow, &wide, &narrow, 8), Err(RenderError::TooWide)));
    assert!(matches!(compose_footer(&narrow, &narrow, &narrow, &wide, 8), Err(RenderError::TooWide)));
    assert!(compose_footer(&wide, &wide, &wide, &wide, 9).is_ok());
}

#[test]
fn footer_too_high_is_an_error() {
    let high = RgbaImage::new(0, u32::MAX).unwrap();
    let one = RgbaImage::new(0, 1).unwrap();
    assert!(matches!(compose_footer(&high, &one, &one, &one, 0), Err(RenderError::TooLarge)));
}

#[test]
fn footer_is_as_high_as_its_blocks_together() {
    let fonts = fonts();
    let footer = generate_footer("0123abcd", "9e2f0699", "one two", "2021-01-01T00:00:00Z", 300, &fonts)
        .unwrap();
    assert_eq!(footer.width(), 300);
    // hash 10 + 12, description 20 + 40, public key 12, timestamp 12 + 10
    assert_eq!(footer.height(), 22 + 60 + 12 + 22);
    // the hash is centred: its block is 8 + 40 wide and starts at (300 - 48) / 2
    assert_eq!(footer.get_pixel(126 + 20, 2 + 8 - 1), Some([0, 0, 0, 255]));
    // the description is at the left: margin 40, top margin 20, baseline 18
    assert_eq!(footer.get_pixel(40, 22 + 20 + 18 - 1), Some([0, 0, 0, 255]));
    // the public key is at the left, below the description
    assert_eq!(footer.get_pixel(20, 82 + 10 - 1), Some([0, 0, 0, 255]));
    // the timestamp is at the right, below the public key: 20 glyphs of 2 pixels
    assert_eq!(footer.get_pixel(300 - 80 + 20, 94 + 10 - 1), Some([0, 0, 0, 255]));
    assert_eq!(rightmost_marked_column(&footer), Some(300 - 20 - 2));
}

#[test]
fn footer_of_empty_field_is_an_error() {
    let fonts = fonts();
    assert!(matches!(
        generate_footer("", "key", "text", "time", 300, &fonts),
        Err(RenderError::EmptyText)
    ));
    assert!(matches!(
        generate_footer("hash", "key", "text", "\n", 300, &fonts),
        Err(RenderError::EmptyText)
    ));
}

fn content() -> Content {
    Content {
        title: "v1.0.0 Release".to_string(),
        tag: "v1.0.0".to_string(),
        hash: "0123456789abcdef".to_string(),
        public_key: "9e2f0699293fdf".to_string(),
        description: "one two three".to_string(),
        timestamp: "2021-01-01T00:00:00+00:00".to_string(),
        payload: "http://example.org/?nftverT=v1.0.0".to_string(),
    }
}

#[test]
fn certificate_stacks_header_body_footer_on_white() {
    let fonts = fonts();
    let content = content();
    let body = generate_body(&content.payload).unwrap();
    let width = body.width();
    let header = generate_header(&content.title, &content.tag, width, &fonts).unwrap();
    let footer = generate_footer(
        &content.hash,
        &content.public_key,
        &content.description,
        &content.timestamp,
        width,
        &fonts,
    )
    .unwrap();
    let certificate = generate_certificate(&content, &fonts).unwrap();
    assert_eq!(certificate.width(), width);
    assert_eq!(certificate.height(), header.height() + body.height() + footer.height());
    let white = [255, 255, 255, 255];
    for y in 0..certificate.height() {
        for x in 0..width {
            let source = if y < header.height() {
                header.get_pixel(x, y)
            } else if y < header.height() + body.height() {
                body.get_pixel(x, y - header.height())
            } else {
                footer.get_pixel(x, y - header.height() - body.height())
            };
            let expected = nftver::merge_rgba(source.unwrap(), white);
            assert_eq!(certificate.get_pixel(x, y), Some(expected));
            assert_eq!(expected[3], 255);
        }
    }
    // the padding of the body shows the background
    assert_eq!(certificate.get_pixel(0, header.height()), Some(white));
    // the corner of the symbol is dark
    assert_eq!(certificate.get_pixel(40, header.height() + 20), Some([0, 0, 0, 255]));
}

#[test]
fn certificate_fails_with_its_first_failure() {
    let fonts = fonts();
    let mut bad = content();
    bad.payload = "x".repeat(4000);
    bad.title = String::new();
    assert!(matches!(generate_certificate(&bad, &fonts), Err(RenderError::QrEncoding)));
    let mut bad = content();
    bad.title = String::new();
    bad.hash = "                                                                      ".repeat(9)
        + "a";
    assert!(matches!(generate_certificate(&bad, &fonts), Err(RenderError::EmptyText)));
    let mut bad = content();
    bad.hash = "a".to_string() + &" ".repeat(600);
    assert!(matches!(generate_certificate(&bad, &fonts), Err(RenderError::TooWide)));
}
