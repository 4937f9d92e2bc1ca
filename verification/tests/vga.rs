use rite::vga::{Character, Color, HalfColor, Writer, BUFFER_HEIGHT, BUFFER_WIDTH, TAB_WIDTH};

fn white_on_black() -> Color {
    Color::new(HalfColor::White, HalfColor::Black)
}

fn code_at(writer: &Writer, row: usize, col: usize) -> u8 {
    writer.character_at(row, col).char_code
}

#[test]
fn colour_bytes() {
    assert_eq!(Color::new(HalfColor::White, HalfColor::Black), Color(0x0f));
    assert_eq!(Color::new(HalfColor::LightRed, HalfColor::Black), Color(0x0c));
    assert_eq!(Color::new(HalfColor::Blue, HalfColor::White), Color(0xf1));
    assert_eq!(Color::new(HalfColor::Black, HalfColor::Black), Color(0x00));
    assert_eq!(HalfColor::Black.code(), 0);
    assert_eq!(HalfColor::LightGray.code(), 7);
    assert_eq!(HalfColor::DarkGray.code(), 8);
    assert_eq!(HalfColor::Yellow.code(), 14);
    assert_eq!(HalfColor::White.code(), 15);
}

#[test]
fn screen_size() {
    assert_eq!(BUFFER_WIDTH, 25);
    assert_eq!(BUFFER_HEIGHT, 80);
    assert_eq!(TAB_WIDTH, 2);
}

#[test]
fn new_screen_is_all_spaces() {
    let writer = Writer::new(white_on_black());
    assert_eq!(writer.cursor(), (0, 0));
    for row in 0..BUFFER_HEIGHT {
        for col in 0..BUFFER_WIDTH {
            assert_eq!(
                writer.character_at(row, col),
                Character { char_code: b' ', color: Color(0x0f) }
            );
        }
    }
}

#[test]
fn bytes_go_to_the_cursor() {
    let mut writer = Writer::new(white_on_black());
    writer.write_str("ab");
    assert_eq!(writer.character_at(0, 0), Character { char_code: b'a', color: Color(0x0f) });
    assert_eq!(code_at(&writer, 0, 1), b'b');
    assert_eq!(code_at(&writer, 0, 2), b' ');
    assert_eq!(writer.cursor(), (2, 0));
    writer.set_color(Color(0x1e));
    writer.write_byte(b'c');
    assert_eq!(writer.character_at(0, 2), Character { char_code: b'c', color: Color(0x1e) });
    assert_eq!(writer.character_at(0, 1), Character { char_code: b'b', color: Color(0x0f) });
}

#[test]
fn line_feed_and_carriage_return() {
    let mut writer = Writer::new(white_on_black());
    writer.write_str("ab\ncd\re");
    assert_eq!(code_at(&writer, 0, 0), b'a');
    assert_eq!(code_at(&writer, 1, 0), b'e');
    assert_eq!(code_at(&writer, 1, 1), b'd');
    assert_eq!(writer.cursor(), (1, 1));
}

#[test]
fn tab_goes_to_the_next_tab_stop() {
    let mut writer = Writer::new(white_on_black());
    writer.write_str("\tx");
    assert_eq!(code_at(&writer, 0, 0), b' ');
    assert_eq!(code_at(&writer, 0, 1), b' ');
    assert_eq!(code_at(&writer, 0, 2), b'x');
    assert_eq!(writer.cursor(), (3, 0));
    writer.write_byte(b'\t');
    assert_eq!(writer.cursor(), (4, 0));
    assert_eq!(code_at(&writer, 0, 3), b' ');
}

#[test]
fn tab_behind_the_last_column_starts_a_line() {
    let mut writer = Writer::new(white_on_black());
    for _ in 0..BUFFER_WIDTH {
        writer.write_byte(b'x');
    }
    assert_eq!(writer.cursor(), (25, 0));
    writer.write_byte(b'\t');
    assert_eq!(writer.cursor(), (1, 1));
    assert_eq!(code_at(&writer, 1, 0), b' ');
    assert_eq!(code_at(&writer, 0, 24), b'x');
}

#[test]
fn line_wraps_behind_the_last_column() {
    let mut writer = Writer::new(white_on_black());
    for _ in 0..BUFFER_WIDTH {
        writer.write_byte(b'x');
    }
    assert_eq!(writer.cursor(), (25, 0));
    writer.write_byte(b'y');
    assert_eq!(writer.cursor(), (1, 1));
    assert_eq!(code_at(&writer, 0, 24), b'x');
    assert_eq!(code_at(&writer, 1, 0), b'y');
}

#[test]
fn backspace_blanks_the_cursor_and_steps_back() {
    let mut writer = Writer::new(white_on_black());
    writer.write_str("abc\r");
    writer.write_byte(0x08);
    assert_eq!(writer.cursor(), (0, 0));
    assert_eq!(code_at(&writer, 0, 0), b'a');
    writer.write_str("\n\nxy\r");
    assert_eq!(writer.cursor(), (0, 2));
    writer.write_byte(0x08);
    assert_eq!(writer.cursor(), (24, 1));
    assert_eq!(code_at(&writer, 2, 0), b' ');
    assert_eq!(code_at(&writer, 2, 1), b'y');
    writer.write_byte(0x08);
    assert_eq!(writer.cursor(), (23, 1));
    writer.write_str("\r\n\nab");
    writer.write_byte(0x08);
    assert_eq!(writer.cursor(), (1, 3));
    assert_eq!(code_at(&writer, 3, 1), b'b');
    assert_eq!(code_at(&writer, 3, 2), b' ');
}

#[test]
fn last_row_scrolls() {
    let mut writer = Writer::new(white_on_black());
    for row in 0..BUFFER_HEIGHT {
        writer.write_byte(b'0' + (row % 10) as u8);
        if row < BUFFER_HEIGHT - 1 {
            writer.write_byte(b'\n');
        }
    }
    assert_eq!(writer.cursor(), (1, 79));
    assert_eq!(code_at(&writer, 0, 0), b'0');
    assert_eq!(code_at(&writer, 79, 0), b'9');
    writer.write_byte(b'\n');
    assert_eq!(writer.cursor(), (0, 79));
    assert_eq!(code_at(&writer, 0, 0), b'1');
    assert_eq!(code_at(&writer, 78, 0), b'9');
    assert_eq!(code_at(&writer, 79, 0), b' ');
    writer.write_byte(b'z');
    assert_eq!(code_at(&writer, 79, 0), b'z');
}

#[test]
fn scroll_and_clear_row() {
    let mut writer = Writer::new(white_on_black());
    writer.write_str("a\nb\nc");
    writer.scroll();
    assert_eq!(code_at(&writer, 0, 0), b'b');
    assert_eq!(code_at(&writer, 1, 0), b'c');
    assert_eq!(code_at(&writer, 2, 0), b' ');
    assert_eq!(writer.cursor(), (1, 2));
    writer.set_color(Color(0x2f));
    writer.clear_row(1);
    assert_eq!(writer.character_at(1, 0), Character { char_code: b' ', color: Color(0x2f) });
    assert_eq!(writer.character_at(0, 0), Character { char_code: b'b', color: Color(0x0f) });
    writer.new_line();
    assert_eq!(writer.cursor(), (0, 3));
}

#[test]
fn clear_screen_fills_with_the_colours_of_the_writer() {
    let mut writer = Writer::new(white_on_black());
    writer.write_str("hello\nworld");
    writer.set_color(Color(0x4e));
    writer.clear_screen();
    assert_eq!(writer.cursor(), (0, 0));
    for row in 0..BUFFER_HEIGHT {
        for col in 0..BUFFER_WIDTH {
            assert_eq!(
                writer.character_at(row, col),
                Character { char_code: b' ', color: Color(0x4e) }
            );
        }
    }
}
