use ptz_controller::context::AppContext;
use ptz_controller::relays::Relays;
use ptz_controller::renderer::{Point, Rgb565, Size, TextRenderer, Window};
use ptz_controller::screen::{readings, seq_text, titles, Color, Readings};

/// Glyphs of one byte: the number of the character, counted from the space.
static ROWS: [u8; 95] = {
    let mut f = [0u8; 95];
    let mut i = 0;
    while i < 95 {
        f[i] = i as u8;
        i += 1;
    }
    f
};

/// Glyphs of thirty-six bytes, as the display's font has them.
static CELLS: [u8; 95 * 36] = [0x0F; 95 * 36];

fn small() -> TextRenderer {
    TextRenderer::new(
        &ROWS,
        Size {
            width: 4,
            height: 2,
        },
    )
}

#[test]
fn colours_are_packed_high_byte_first() {
    assert_eq!(Rgb565 { r: 31, g: 0, b: 0 }.to_be_bytes(), [0xF8, 0x00]);
    assert_eq!(Rgb565 { r: 0, g: 63, b: 0 }.to_be_bytes(), [0x07, 0xE0]);
    assert_eq!(Rgb565 { r: 0, g: 0, b: 31 }.to_be_bytes(), [0x00, 0x1F]);
    assert_eq!(Rgb565 { r: 1, g: 2, b: 3 }.to_be_bytes(), [0x08, 0x43]);
    assert_eq!(
        Rgb565 {
            r: 33,
            g: 66,
            b: 35
        }
        .to_be_bytes(),
        [0x08, 0x43]
    );
    assert_eq!(Color::Cyan.rgb().to_be_bytes(), [0x07, 0xFF]);
    assert_eq!(Color::White.rgb().to_be_bytes(), [0xFF, 0xFF]);
    assert_eq!(Color::Black.rgb().to_be_bytes(), [0x00, 0x00]);
    assert_eq!(Color::Red.rgb().to_be_bytes(), [0xF8, 0x00]);
    assert_eq!(Color::Green.rgb().to_be_bytes(), [0x07, 0xE0]);
    assert_eq!(Color::Blue.rgb().to_be_bytes(), [0x00, 0x1F]);
}

#[test]
fn glyph_bits_are_unpacked_lowest_first() {
    let mut buf = [9u8; 10];
    // '%' is the fifth character after the space
    small().unpack('%', &mut buf, &[1], &[0]);
    assert_eq!(buf, [1, 0, 1, 0, 0, 0, 0, 0, 9, 9]);
    small().unpack(' ', &mut buf, &[1], &[0]);
    assert_eq!(buf, [0, 0, 0, 0, 0, 0, 0, 0, 9, 9]);
}

#[test]
fn colours_of_several_bytes_are_copied_whole() {
    let mut buf = [0u8; 16];
    small().unpack('"', &mut buf, &[0xAB, 0xCD], &[1, 2]);
    assert_eq!(
        buf,
        [1, 2, 0xAB, 0xCD, 1, 2, 1, 2, 1, 2, 1, 2, 1, 2, 1, 2]
    );
}

#[test]
fn text_is_drawn_cell_by_cell() {
    let mut buf = [0u8; 20];
    let tiles = small().render_text(
        "!~",
        Point { x: 10, y: 20 },
        Rgb565 { r: 1, g: 2, b: 3 },
        Rgb565 { r: 0, g: 0, b: 0 },
        &mut buf,
    );
    assert_eq!(tiles.len(), 2);
    assert_eq!(
        tiles[0].window,
        Window {
            x0: 10,
            y0: 20,
            x1: 13,
            y1: 21
        }
    );
    assert_eq!(
        tiles[1].window,
        Window {
            x0: 14,
            y0: 20,
            x1: 17,
            y1: 21
        }
    );
    let mut first = vec![0u8; 16];
    first[0] = 0x08;
    first[1] = 0x43;
    assert_eq!(tiles[0].pixels, first);
    // '~' is number 94: 0b0101_1110
    let mut second = vec![0u8; 16];
    for p in [1, 2, 3, 4, 6] {
        second[2 * p] = 0x08;
        second[2 * p + 1] = 0x43;
    }
    assert_eq!(tiles[1].pixels, second);
    assert_eq!(&buf[..16], &second[..]);
    assert_eq!(&buf[16..], &[0; 4]);
}

#[test]
fn empty_text_draws_nothing() {
    let mut buf = [7u8; 16];
    let tiles = small().render_text(
        "",
        Point { x: 0, y: 0 },
        Color::White.rgb(),
        Color::Black.rgb(),
        &mut buf,
    );
    assert!(tiles.is_empty());
    assert_eq!(buf, [7; 16]);
}

#[test]
fn cell_that_fills_no_whole_byte_keeps_the_rest_of_the_buffer() {
    // nine pixels, one byte of the font
    let r = TextRenderer::new(
        &ROWS,
        Size {
            width: 3,
            height: 3,
        },
    );
    let mut buf = [5u8; 18];
    let tiles = r.render_text(
        " ",
        Point { x: 0, y: 0 },
        Color::White.rgb(),
        Color::Black.rgb(),
        &mut buf,
    );
    let mut expected = vec![0u8; 16];
    expected.extend_from_slice(&[5, 5]);
    assert_eq!(tiles[0].pixels, expected);
}

#[test]
fn position_left_of_the_display_wraps() {
    let mut buf = [0u8; 16];
    let tiles = small().render_text(
        " ",
        Point { x: -8, y: 3 },
        Color::White.rgb(),
        Color::Black.rgb(),
        &mut buf,
    );
    assert_eq!(tiles[0].window.x0, 65528);
    assert_eq!(tiles[0].window.x1, 65531);
}

#[test]
fn titles_stand_where_they_should() {
    let t = titles();
    assert_eq!(t.len(), 12);
    assert_eq!(t[0].text, "R2AJP PTZ Controller");
    assert_eq!(t[0].at, Point { x: 36, y: 0 });
    assert_eq!(t[0].color, Color::Cyan);
    let left = [
        "PTZ AZ:",
        "PTZ EL:",
        "REQ AZ:",
        "REQ EL:",
        "Signal M dBm:",
        "Noise M dBm:",
        "Signal S dBm:",
        "Noise S dBm:",
        "SEQ:",
    ];
    for (i, text) in left.iter().enumerate() {
        assert_eq!(t[i + 1].text, *text);
        assert_eq!(
            t[i + 1].at,
            Point {
                x: 0,
                y: 24 * (i as i32 + 1)
            }
        );
        assert_eq!(t[i + 1].color, Color::White);
    }
    assert_eq!((t[10].text, t[10].at), ("PTZ Pwr:", Point { x: 168, y: 24 }));
    assert_eq!((t[11].text, t[11].at), ("LNA Pwr:", Point { x: 168, y: 48 }));
}

#[test]
fn titles_can_be_drawn_on_the_panel() {
    let r = TextRenderer::new(
        &CELLS,
        Size {
            width: 12,
            height: 24,
        },
    );
    let mut buf = [0u8; 576];
    for t in titles() {
        let tiles = r.render_text(
            t.text,
            t.at,
            t.color.rgb(),
            Color::Black.rgb(),
            &mut buf,
        );
        assert_eq!(tiles.len(), t.text.len());
        for tile in tiles {
            assert!(tile.window.x1 < 320 && tile.window.y1 < 240);
            assert_eq!(tile.pixels.len(), 576);
        }
    }
}

fn texts() -> Readings<'static> {
    Readings {
        az: "1",
        el: "2",
        target_az: "3",
        target_el: "4",
        signal_m: "5",
        noise_m: "6",
        signal_s: "7",
        noise_s: "8",
        seq: "9",
        az_pot: "10",
        el_pot: "11",
    }
}

#[test]
fn readings_stand_where_they_should() {
    let ctx = AppContext::new();
    let expected = [
        ("1", 96, 24, Color::Green),
        ("2", 96, 48, Color::Green),
        ("3", 96, 72, Color::Green),
        ("4", 96, 96, Color::Green),
        ("5", 168, 120, Color::Green),
        ("6", 168, 144, Color::Blue),
        ("7", 168, 168, Color::Green),
        ("8", 168, 192, Color::Blue),
        ("9", 60, 216, Color::Green),
        ("10", 168, 72, Color::Green),
        ("11", 168, 96, Color::Green),
        ("OFF", 276, 24, Color::Red),
        ("OFF", 276, 48, Color::Red),
        ("AUTO  ", 240, 72, Color::White),
    ];
    let r = readings(&ctx, texts());
    assert_eq!(r.len(), expected.len());
    for (item, (text, x, y, color)) in r.iter().zip(expected) {
        assert_eq!(item.text, text);
        assert_eq!(item.at, Point { x, y });
        assert_eq!(item.color, color);
    }
}

#[test]
fn states_are_shown_in_words() {
    let mut ctx = AppContext::new();
    ctx.power_control = Relays {
        ptz: true,
        lna: false,
    };
    ctx.manual = true;
    let r = readings(&ctx, texts());
    assert_eq!((r[11].text, r[11].color), ("ON ", Color::Blue));
    assert_eq!((r[12].text, r[12].color), ("OFF", Color::Red));
    assert_eq!((r[13].text, r[13].color), ("MANUAL", Color::White));
    ctx.power_control.lna = true;
    let r = readings(&ctx, texts());
    assert_eq!((r[12].text, r[12].color), ("ON ", Color::Blue));
}

#[test]
fn texts_join() {
    // nine pixels, one byte of the font: the last pixel of a cell keeps what was there
    let r = TextRenderer::new(
        &ROWS,
        Size {
            width: 3,
            height: 3,
        },
    );
    let fc = Color::Green.rgb();
    let bc = Color::Red.rgb();
    let at = Point { x: 30, y: 7 };
    let mut joined_buf = [5u8; 20];
    let joined = r.render_text("! ~", at, fc, bc, &mut joined_buf);
    let mut buf = [5u8; 20];
    let mut parts = r.render_text("! ", at, fc, bc, &mut buf);
    let next = Point { x: 36, y: 7 };
    parts.extend(r.render_text("~", next, fc, bc, &mut buf));
    assert_eq!(joined.len(), parts.len());
    for (a, b) in joined.iter().zip(&parts) {
        assert_eq!(a.window, b.window);
        assert_eq!(a.pixels, b.pixels);
    }
    assert_eq!(joined_buf, buf);
}

#[test]
fn packet_numbers_are_written_in_decimal() {
    assert_eq!(seq_text(0), "0");
    assert_eq!(seq_text(9), "9");
    assert_eq!(seq_text(10), "10");
    assert_eq!(seq_text(1203), "1203");
    assert_eq!(seq_text(u32::MAX), "4294967295");
}

#[test]
fn unpacking_again_changes_nothing() {
    let mut buf = [9u8; 20];
    small().unpack('5', &mut buf, &[1, 2], &[3, 4]);
    assert_eq!(buf[16..], [9; 4]);
    let after = buf;
    small().unpack('5', &mut buf, &[1, 2], &[3, 4]);
    assert_eq!(buf, after);
}

#[test]
fn colour_that_no_pixel_takes_may_be_of_any_length() {
    static FULL: [u8; 1] = [0xFF];
    let r = TextRenderer::new(
        &FULL,
        Size {
            width: 4,
            height: 2,
        },
    );
    let mut buf = [9u8; 10];
    r.unpack(' ', &mut buf, &[1], &[2, 3, 4]);
    assert_eq!(buf, [1, 1, 1, 1, 1, 1, 1, 1, 9, 9]);
}
