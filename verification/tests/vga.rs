use korat_os::vga_buffer::color::Color;
use korat_os::vga_buffer::color::ColorCode;
use korat_os::vga_buffer::Writer;

fn yellow_on_black() -> ColorCode {
    ColorCode::new(Color::Yellow, Color::Black)
}

fn row_string(w: &Writer, row: usize) -> String {
    let mut s = String::new();
    for col in 0..80 {
        s.push(w.char_at(row, col).ascii_character as char);
    }
    s
}

#[test]
fn color_code_packs_background_and_foreground() {
    assert_eq!(ColorCode::new(Color::Yellow, Color::Black).value(), 0x0e);
    assert_eq!(ColorCode::new(Color::White, Color::Blue).value(), 0x1f);
    assert_eq!(ColorCode::new(Color::Black, Color::White).value(), 0xf0);
}

#[test]
fn write_byte_advances_column_by_one() {
    let mut w = Writer::new(yellow_on_black());
    w.write_byte(b'a');
    assert_eq!(w.column_position(), 1);
    assert_eq!(w.char_at(24, 0).ascii_character, b'a');
    w.write_byte(b'b');
    assert_eq!(w.column_position(), 2);
    assert_eq!(w.char_at(24, 1).ascii_character, b'b');
}

#[test]
fn newline_scrolls_and_resets_column() {
    let mut w = Writer::new(yellow_on_black());
    w.write_string("abc\n");
    assert_eq!(w.column_position(), 0);
    assert_eq!(w.char_at(23, 0).ascii_character, b'a');
    assert_eq!(w.char_at(23, 1).ascii_character, b'b');
    assert_eq!(w.char_at(23, 2).ascii_character, b'c');
    for col in 0..80 {
        assert_eq!(w.char_at(24, col).ascii_character, b' ');
    }
}

#[test]
fn exactly_eighty_chars_fill_the_row_without_scrolling() {
    let mut w = Writer::new(yellow_on_black());
    let line: String = (0..80).map(|i| (b'a' + (i % 26) as u8) as char).collect();
    w.write_string(&line);
    assert_eq!(w.column_position(), 80);
    for col in 0..80 {
        assert_eq!(w.char_at(24, col).ascii_character, b'a' + (col % 26) as u8);
        assert_eq!(w.char_at(23, col).ascii_character, b' ');
    }
}

#[test]
fn long_line_scrolls_once_per_eighty_chars() {
    let mut w = Writer::new(yellow_on_black());
    let bytes: Vec<u8> = (0..200u32).map(|i| b'a' + (i % 26) as u8).collect();
    let s = String::from_utf8(bytes.clone()).unwrap();
    w.write_string(&s);
    // Two scrolls happened: at the 81st and the 161st character.
    assert_eq!(w.column_position(), 40);
    for col in 0..80 {
        assert_eq!(w.char_at(22, col).ascii_character, bytes[col]);
        assert_eq!(w.char_at(23, col).ascii_character, bytes[80 + col]);
    }
    for col in 0..40 {
        assert_eq!(w.char_at(24, col).ascii_character, bytes[160 + col]);
    }
    for col in 40..80 {
        assert_eq!(w.char_at(24, col).ascii_character, b' ');
    }
}

#[test]
fn non_ascii_byte_renders_placeholder() {
    let mut w = Writer::new(yellow_on_black());
    w.write_bytes(&[0xff, 0x01, b'x']);
    assert_eq!(w.char_at(24, 0).ascii_character, 0x3f);
    assert_eq!(w.char_at(24, 1).ascii_character, 0x3f);
    assert_eq!(w.char_at(24, 2).ascii_character, b'x');
    assert_ne!(w.char_at(24, 0).ascii_character, 0xff);
}

#[test]
fn println_output_lands_on_the_row_above_the_cursor() {
    let mut w = Writer::new(yellow_on_black());
    let s = "Some test string that fits on a single line";
    w.write_string("\n");
    w.write_string(s);
    w.write_string("\n");
    for (i, c) in s.chars().enumerate() {
        assert_eq!(w.char_at(23, i).ascii_character as char, c);
    }
}

#[test]
fn many_lines_keep_scrolling() {
    let mut w = Writer::new(yellow_on_black());
    for _ in 0..200 {
        w.write_string("test output line\n");
    }
    assert_eq!(w.column_position(), 0);
    assert_eq!(row_string(&w, 23).trim_end(), "test output line");
    assert_eq!(row_string(&w, 0).trim_end(), "test output line");
    assert_eq!(row_string(&w, 24).trim_end(), "");
}

#[test]
fn scrolled_rows_shift_up_and_bottom_row_is_blank() {
    let mut w = Writer::new(yellow_on_black());
    w.write_string("first\nsecond\n");
    assert_eq!(row_string(&w, 22).trim_end(), "first");
    assert_eq!(row_string(&w, 23).trim_end(), "second");
    assert_eq!(row_string(&w, 24).trim_end(), "");
}
