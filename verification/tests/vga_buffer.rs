use emb_trial::vga_buffer::{Buffer, Color, ColorCode, ScreenChar, Writer, BUFFER_HEIGHT, BUFFER_SIZE, BUFFER_WIDTH};

fn blank(color: ColorCode) -> ScreenChar {
    ScreenChar { ascii_char: b' ', color_code: color }
}

fn new_writer() -> Writer {
    let color = ColorCode::new(Color::Yellow, Color::Black);
    Writer::new(color, Buffer::filled(blank(color)))
}

fn println(w: &mut Writer, s: &str) {
    w.write_string(s);
    w.write_string("\n");
}

fn row_text(w: &Writer, row: usize, len: usize) -> String {
    (0..len).map(|i| char::from(w.char_at(row, i).ascii_char)).collect()
}

#[test]
fn test_println_simple() {
    let mut w = new_writer();
    println(&mut w, "test_println_simple output");
    assert_eq!(w.column_position(), 0);
    assert_eq!(row_text(&w, BUFFER_HEIGHT - 2, 26), "test_println_simple output");
}

#[test]
fn test_println_many() {
    let mut w = new_writer();
    for _ in 0..200 {
        println(&mut w, "test_println_many output");
    }
    for row in 0..BUFFER_HEIGHT - 1 {
        assert_eq!(row_text(&w, row, 24), "test_println_many output");
    }
    assert_eq!(w.column_position(), 0);
}

#[test]
fn test_println_output() {
    let mut w = new_writer();
    let s = "Some test string that fits on a single line";
    println(&mut w, s);
    for (i, c) in s.chars().enumerate() {
        let ch = w.char_at(BUFFER_HEIGHT - 2, i);
        assert_eq!(c, char::from(ch.ascii_char));
    }
}

#[test]
fn color_code_packs_background_high_foreground_low() {
    assert_eq!(ColorCode::new(Color::Yellow, Color::Black), ColorCode(0x0e));
    assert_eq!(ColorCode::new(Color::White, Color::Blue), ColorCode(0x1f));
    assert_eq!(ColorCode::new(Color::Black, Color::White), ColorCode(0xf0));
    assert_eq!(Color::LightMagenta.as_u8(), 13);
}

#[test]
fn write_byte_fills_bottom_row_in_colour() {
    let mut w = new_writer();
    w.write_byte(b'H');
    w.write_byte(b'i');
    assert_eq!(w.column_position(), 2);
    let yellow = ColorCode::new(Color::Yellow, Color::Black);
    assert_eq!(w.char_at(BUFFER_HEIGHT - 1, 0), ScreenChar { ascii_char: b'H', color_code: yellow });
    assert_eq!(w.char_at(BUFFER_HEIGHT - 1, 1), ScreenChar { ascii_char: b'i', color_code: yellow });
    assert_eq!(w.char_at(BUFFER_HEIGHT - 2, 0), blank(yellow));
}

#[test]
fn non_ascii_bytes_print_as_square() {
    let mut w = new_writer();
    w.write_string("a\u{e9}\tb");
    assert_eq!(w.column_position(), 5);
    let row: Vec<u8> = (0..5).map(|i| w.char_at(BUFFER_HEIGHT - 1, i).ascii_char).collect();
    assert_eq!(row, vec![b'a', 0xfe, 0xfe, 0xfe, b'b']);
}

#[test]
fn full_row_wraps_before_next_byte() {
    let mut w = new_writer();
    let line: String = std::iter::repeat('x').take(BUFFER_WIDTH).collect();
    w.write_string(&line);
    assert_eq!(w.column_position(), BUFFER_WIDTH);
    w.write_byte(b'y');
    assert_eq!(w.column_position(), 1);
    assert_eq!(row_text(&w, BUFFER_HEIGHT - 2, BUFFER_WIDTH), line);
    assert_eq!(w.char_at(BUFFER_HEIGHT - 1, 0).ascii_char, b'y');
}

#[test]
fn newline_blanks_the_first_columns_of_the_bottom_row() {
    let color = ColorCode::new(Color::Green, Color::Black);
    let mut cells = Vec::new();
    for i in 0..BUFFER_SIZE {
        cells.push(ScreenChar { ascii_char: b'a' + (i / BUFFER_WIDTH) as u8, color_code: color });
    }
    let buffer = Buffer::from_cells(cells).unwrap();
    let mut w = Writer::new(color, buffer);
    w.write_byte(b'\n');
    for row in 0..BUFFER_HEIGHT - 1 {
        assert_eq!(w.char_at(row, 0).ascii_char, b'a' + (row + 1) as u8);
    }
    for col in 0..BUFFER_HEIGHT {
        assert_eq!(w.char_at(BUFFER_HEIGHT - 1, col), blank(color));
    }
    for col in BUFFER_HEIGHT..BUFFER_WIDTH {
        assert_eq!(w.char_at(BUFFER_HEIGHT - 1, col).ascii_char, b'a' + 24);
    }
}

#[test]
fn from_cells_needs_a_full_screen() {
    let color = ColorCode(0x07);
    assert!(Buffer::from_cells(vec![blank(color); BUFFER_SIZE - 1]).is_none());
    assert!(Buffer::from_cells(vec![blank(color); BUFFER_SIZE]).is_some());
}

#[test]
fn writing_in_two_parts_equals_writing_at_once() {
    let mut a = new_writer();
    let mut b = new_writer();
    a.write_string("hello, ");
    a.write_string("world\nagain");
    b.write_string("hello, world\nagain");
    for row in 0..BUFFER_HEIGHT {
        for col in 0..BUFFER_WIDTH {
            assert_eq!(a.char_at(row, col), b.char_at(row, col));
        }
    }
    assert_eq!(a.column_position(), b.column_position());
}

#[test]
fn several_newlines_scroll_by_that_many_rows() {
    let color = ColorCode::new(Color::Cyan, Color::Black);
    let mut cells = Vec::new();
    for i in 0..BUFFER_SIZE {
        cells.push(ScreenChar { ascii_char: b'a' + (i / BUFFER_WIDTH) as u8, color_code: color });
    }
    let mut w = Writer::new(color, Buffer::from_cells(cells).unwrap());
    w.write_string("\n\n\n");
    assert_eq!(w.column_position(), 0);
    for row in 0..BUFFER_HEIGHT {
        for col in 0..BUFFER_WIDTH {
            let expected = if row + 3 < BUFFER_HEIGHT {
                ScreenChar { ascii_char: b'a' + (row + 3) as u8, color_code: color }
            } else if col < BUFFER_HEIGHT {
                blank(color)
            } else {
                ScreenChar { ascii_char: b'a' + 24, color_code: color }
            };
            assert_eq!(w.char_at(row, col), expected);
        }
    }
}
