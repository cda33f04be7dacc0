use vga_writer::buffer::{Buffer, Char, VGA_BUFFER_ADDRESS};
use vga_writer::color::{Color, ColorCode};
use vga_writer::screen::{BLANK, BUFFER_HEIGHT, BUFFER_LENGTH, NEWLINE};

#[test]
fn platform_constants() {
    assert_eq!(VGA_BUFFER_ADDRESS, 0xb8000);
    assert_eq!(NEWLINE, b'\n');
    assert_eq!(BLANK, b' ');
}

#[test]
fn blank_grid_holds_blanks_in_the_fill_colour() {
    let color = ColorCode::new(Color::White, Color::Blue);
    let grid = Buffer::blank(color);
    for row in 0..BUFFER_HEIGHT {
        for col in 0..BUFFER_LENGTH {
            assert_eq!(grid.read_cell(row, col), Char { byte: b' ', color });
        }
    }
}

#[test]
fn write_cell_changes_one_cell() {
    let fill = ColorCode::default();
    let color = ColorCode::new(Color::Red, Color::Yellow);
    let mut grid = Buffer::blank(fill);
    grid.write_cell(23, 79, Char { byte: b'Q', color });
    grid.write_cell(0, 0, Char { byte: b'R', color });
    for row in 0..BUFFER_HEIGHT {
        for col in 0..BUFFER_LENGTH {
            let expected = if (row, col) == (23, 79) {
                Char { byte: b'Q', color }
            } else if (row, col) == (0, 0) {
                Char { byte: b'R', color }
            } else {
                Char { byte: b' ', color: fill }
            };
            assert_eq!(grid.read_cell(row, col), expected);
        }
    }
}

#[test]
fn later_store_replaces_the_earlier_one() {
    let color = ColorCode::default();
    let mut grid = Buffer::blank(color);
    grid.write_cell(5, 5, Char { byte: b'1', color });
    grid.write_cell(5, 5, Char { byte: b'2', color });
    assert_eq!(grid.read_cell(5, 5), Char { byte: b'2', color });
}

#[test]
fn grid_clear_overwrites_every_cell() {
    let color = ColorCode::new(Color::Black, Color::Gray);
    let mut grid = Buffer::blank(ColorCode::default());
    grid.write_cell(12, 40, Char { byte: b'#', color: ColorCode::default() });
    grid.clear(color);
    for row in 0..BUFFER_HEIGHT {
        for col in 0..BUFFER_LENGTH {
            assert_eq!(grid.read_cell(row, col), Char { byte: b' ', color });
        }
    }
}

#[test]
fn grid_is_two_bytes_a_cell() {
    assert_eq!(std::mem::size_of::<Buffer>(), BUFFER_LENGTH * BUFFER_HEIGHT * 2);
    assert_eq!(std::mem::size_of::<Char>(), 2);
}
