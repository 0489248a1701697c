use radius_os::interrupts::{InterruptIndex, PIC1_OFFSET, PIC2_OFFSET};
use radius_os::vga::{
    Buffer, Colour, ColourCode, ScreenChar, Writer, BUFFER_HEIGHT, BUFFER_WIDTH, UNPRINTABLE,
};

fn writer() -> Writer {
    let colour_code = ColourCode::new(Colour::Yellow, Colour::Black);
    Writer {
        column_pos: 0,
        colour_code,
        buffer: Buffer::filled(ScreenChar { ascii_char: b'.', colour_code: ColourCode(0) }),
    }
}

fn row_text(writer: &Writer, row: usize, len: usize) -> String {
    (0..len).map(|col| char::from(writer.buffer.read(row, col).ascii_char)).collect()
}

#[test]
fn interrupt_vectors() {
    assert_eq!(PIC1_OFFSET, 32);
    assert_eq!(PIC2_OFFSET, 40);
    assert_eq!(InterruptIndex::Timer.as_u8(), 32);
    assert_eq!(InterruptIndex::Keyboard.as_u8(), 33);
    assert_eq!(InterruptIndex::ParallelPort1.as_u8(), 39);
    assert_eq!(InterruptIndex::RealTimeClock.as_u8(), 40);
    assert_eq!(InterruptIndex::SecondaryAta.as_u8(), 47);
    assert_eq!(InterruptIndex::Timer.as_usize(), 32);
    assert_eq!(InterruptIndex::Mouse.as_usize(), 44);
}

#[test]
fn interrupt_vectors_follow_line_order() {
    let lines = [
        InterruptIndex::Timer,
        InterruptIndex::Keyboard,
        InterruptIndex::SecondaryIC,
        InterruptIndex::SerialPort2,
        InterruptIndex::SerialPort1,
        InterruptIndex::ParallelPort23,
        InterruptIndex::FloppyDisk,
        InterruptIndex::ParallelPort1,
        InterruptIndex::RealTimeClock,
        InterruptIndex::ACPI,
        InterruptIndex::Available1,
        InterruptIndex::Available2,
        InterruptIndex::Mouse,
        InterruptIndex::CoProcessor,
        InterruptIndex::PrimaryAta,
        InterruptIndex::SecondaryAta,
    ];
    for (line, index) in lines.iter().enumerate() {
        assert_eq!(index.as_u8() as usize, 32 + line);
        assert_eq!(index.as_usize(), 32 + line);
    }
}

#[test]
fn colour_code_packs_foreground_and_background() {
    assert_eq!(ColourCode::new(Colour::Yellow, Colour::Black), ColourCode(14));
    assert_eq!(ColourCode::new(Colour::White, Colour::Blue), ColourCode(0x1f));
    assert_eq!(ColourCode::new(Colour::Black, Colour::White), ColourCode(0xf0));
    assert_eq!(ColourCode::new(Colour::LightRed, Colour::Brown), ColourCode(0x6c));
    assert_eq!(Colour::Pink.code(), 13);
}

#[test]
fn screen_dimensions() {
    assert_eq!(BUFFER_HEIGHT, 25);
    assert_eq!(BUFFER_WIDTH, 80);
}

#[test]
fn write_byte_goes_to_bottom_row() {
    let mut w = writer();
    w.write_byte(b'H');
    w.write_byte(b'i');
    assert_eq!(w.column_pos, 2);
    assert_eq!(
        w.buffer.read(24, 0),
        ScreenChar { ascii_char: b'H', colour_code: ColourCode(14) }
    );
    assert_eq!(w.buffer.read(24, 1).ascii_char, b'i');
    assert_eq!(w.buffer.read(24, 2).ascii_char, b'.');
    assert_eq!(w.buffer.read(23, 0).ascii_char, b'.');
}

#[test]
fn it_works_stands_above_the_bottom_row() {
    let mut w = writer();
    w.write_string("It works!\n");
    assert_eq!(row_text(&w, BUFFER_HEIGHT - 2, 9), "It works!");
    assert_eq!(w.buffer.read(BUFFER_HEIGHT - 2, 9).ascii_char, b'.');
    assert_eq!(row_text(&w, BUFFER_HEIGHT - 1, 80), " ".repeat(80));
    assert_eq!(w.buffer.read(24, 0).colour_code, ColourCode(14));
    assert_eq!(w.column_pos, 0);
}

#[test]
fn async_number_line_stands_above_the_bottom_row() {
    let mut w = writer();
    w.write_string("async number: 42\n");
    assert_eq!(row_text(&w, BUFFER_HEIGHT - 2, 16), "async number: 42");
}

#[test]
fn new_line_scrolls_every_row_up() {
    let mut w = writer();
    w.write_string("one\ntwo\nthree");
    assert_eq!(row_text(&w, 22, 3), "one");
    assert_eq!(row_text(&w, 23, 3), "two");
    assert_eq!(row_text(&w, 24, 5), "three");
    assert_eq!(w.column_pos, 5);
    w.new_line();
    assert_eq!(row_text(&w, 21, 3), "one");
    assert_eq!(row_text(&w, 22, 3), "two");
    assert_eq!(row_text(&w, 23, 5), "three");
    assert_eq!(row_text(&w, 24, 5), "     ");
    assert_eq!(w.column_pos, 0);
}

#[test]
fn full_row_wraps_to_a_new_line() {
    let mut w = writer();
    for _ in 0..80 {
        w.write_byte(b'x');
    }
    assert_eq!(w.column_pos, 80);
    assert_eq!(row_text(&w, 24, 80), "x".repeat(80));
    w.write_byte(b'y');
    assert_eq!(w.column_pos, 1);
    assert_eq!(row_text(&w, 23, 80), "x".repeat(80));
    assert_eq!(w.buffer.read(24, 0).ascii_char, b'y');
    assert_eq!(w.buffer.read(24, 1).ascii_char, b' ');
}

#[test]
fn column_beyond_the_row_starts_a_new_line() {
    let mut w = writer();
    w.column_pos = 500;
    w.write_byte(b'z');
    assert_eq!(w.column_pos, 1);
    assert_eq!(w.buffer.read(24, 0).ascii_char, b'z');
}

#[test]
fn write_string_replaces_unprintable_bytes() {
    let mut w = writer();
    w.write_string("a\tb\u{e9}~ ");
    assert_eq!(UNPRINTABLE, 0xfe);
    let shown: Vec<u8> = (0..7).map(|col| w.buffer.read(24, col).ascii_char).collect();
    assert_eq!(shown, vec![b'a', 0xfe, b'b', 0xfe, 0xfe, b'~', b' ']);
    assert_eq!(w.column_pos, 7);
}

#[test]
fn write_byte_at_writes_printable_bytes_on_screen_only() {
    let mut w = writer();
    w.write_byte_at(b'L', 10, 40);
    assert_eq!(
        w.buffer.read(10, 40),
        ScreenChar { ascii_char: b'L', colour_code: ColourCode(14) }
    );
    w.write_byte_at(b'\n', 10, 41);
    w.write_byte_at(0x1f, 10, 42);
    w.write_byte_at(0x7f, 10, 43);
    w.write_byte_at(b'A', 25, 0);
    w.write_byte_at(b'A', 0, 80);
    w.write_byte_at(b' ', 0, 79);
    w.write_byte_at(b'~', 24, 0);
    assert_eq!(w.buffer.read(10, 41).ascii_char, b'.');
    assert_eq!(w.buffer.read(10, 42).ascii_char, b'.');
    assert_eq!(w.buffer.read(10, 43).ascii_char, b'.');
    assert_eq!(w.buffer.read(0, 79).ascii_char, b' ');
    assert_eq!(w.buffer.read(24, 0).ascii_char, b'~');
    assert_eq!(w.column_pos, 0);
}

#[test]
fn clear_row_blanks_one_row() {
    let mut w = writer();
    w.clear_row(3);
    assert_eq!(row_text(&w, 3, 80), " ".repeat(80));
    assert_eq!(w.buffer.read(3, 79).colour_code, ColourCode(14));
    assert_eq!(row_text(&w, 2, 80), ".".repeat(80));
    assert_eq!(row_text(&w, 4, 80), ".".repeat(80));
}

#[test]
fn two_hundred_lines_leave_the_last_ones_on_screen() {
    let mut w = writer();
    for i in 0..200 {
        w.write_string(&format!("line {}\n", i));
    }
    assert_eq!(row_text(&w, 23, 8), "line 199");
    assert_eq!(row_text(&w, 0, 8), "line 176");
}
