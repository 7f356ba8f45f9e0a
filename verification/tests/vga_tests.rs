use kmem::vga::{Color, ColorCode, VgaChar, VgaWriter, SCREEN_HEIGHT, SCREEN_WIDTH};

fn blank_screen() -> Vec<VgaChar> {
    vec![VgaChar::new(b' ', ColorCode::new(Color::Black, Color::White)); SCREEN_WIDTH * SCREEN_HEIGHT]
}

fn check_string_is_displayed(vga: &VgaWriter, string: &str) {
    let mut curr_row = 0;
    let mut curr_column = 0;
    for index in 0..string.len() {
        if string.as_bytes()[index] == b'\n' {
            curr_row += 1;
            curr_column = 0;
            continue;
        }

        let expected_char = VgaChar::new(
            string.as_bytes()[index],
            ColorCode::new(Color::White, Color::Black),
        );

        assert_eq!(vga.char_at(curr_column + curr_row * SCREEN_WIDTH), expected_char);
        curr_column += 1;

        if curr_column == SCREEN_WIDTH {
            curr_column = 0;
            curr_row += 1;
        }
    }
}

#[test]
fn write_byte() {
    let memory = blank_screen();
    let mut vga = VgaWriter::new(memory);

    vga.write_byte(b'c');
    let expected_char = VgaChar::new(b'c', ColorCode::new(Color::White, Color::Black));

    assert_eq!(vga.char_at(0), expected_char);
}

#[test]
fn write_string() {
    let memory = blank_screen();
    let mut vga = VgaWriter::new(memory);

    let string = "Hello World!";
    vga.write_str(string)
        .expect("write_str should never return an error!");

    check_string_is_displayed(&vga, &string);
}

#[test]
fn new_lines() {
    let memory = blank_screen();
    let mut vga = VgaWriter::new(memory);

    let string = "Hello World!\nGoodbye World!";
    vga.write_str(string)
        .expect("write_str should never return an error!");

    check_string_is_displayed(&vga, &string);
}

#[test]
fn line_wrap() {
    let memory = blank_screen();
    let mut vga = VgaWriter::new(memory);

    let string = "a".repeat(30);
    vga.write_str(&string)
        .expect("write_str should never return an error!");

    check_string_is_displayed(&vga, &string);
}

#[test]
fn scrolling() {
    let memory = blank_screen();
    let mut vga = VgaWriter::new(memory);

    let string = "Hello World!\nGoodbye World!\n".repeat(13);
    vga.write_str(&string)
        .expect("write_str should never return an error!");

    check_string_is_displayed(&vga, &string[28..]);
}

#[test]
fn invalid_char() {
    let memory = blank_screen();
    let mut vga = VgaWriter::new(memory);

    let string = "😀😃😄";
    vga.write_str(&string)
        .expect("write_str should never return an error!");

    let invalid_char = VgaChar::new(254, ColorCode::new(Color::White, Color::Black));
    for index in 0..string.len() {
        assert_eq!(vga.char_at(index), invalid_char);
    }
}

#[test]
fn clear_blanks_screen() {
    let memory = blank_screen();
    let mut vga = VgaWriter::new(memory);
    vga.write_str("some text").expect("write_str should never return an error!");
    vga.clear();
    let blank = VgaChar::new(b' ', ColorCode::new(Color::White, Color::Black));
    for index in 0..SCREEN_WIDTH * SCREEN_HEIGHT {
        assert_eq!(vga.char_at(index), blank);
    }
}
