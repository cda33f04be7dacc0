use spin::Mutex;
use vga_writer::buffer::{Buffer, Char, Writer, _clear, _echo};
use vga_writer::color::{Color, ColorCode};
use vga_writer::screen::{BUFFER_HEIGHT, BUFFER_LENGTH};

fn console(color: ColorCode) -> Mutex<Writer> {
    let grid: &'static mut Buffer = Box::leak(Box::new(Buffer::blank(ColorCode::default())));
    Mutex::new(Writer::new(grid, color, 0, 0))
}

#[test]
fn echo_writes_through_the_lock_and_releases_it() {
    let color = ColorCode::new(Color::White, Color::Black);
    let shared = console(color);
    assert!(_echo(&shared, "ok").is_ok());
    assert!(_echo(&shared, "!\n").is_ok());
    let writer = shared.try_lock().expect("the lock is free again");
    assert_eq!(writer.read_cell(0, 0), Char { byte: b'o', color });
    assert_eq!(writer.read_cell(0, 1), Char { byte: b'k', color });
    assert_eq!(writer.read_cell(0, 2), Char { byte: b'!', color });
    assert_eq!(writer.row_position(), 1);
    assert_eq!(writer.column_position(), 0);
}

#[test]
fn clear_blanks_the_shared_console() {
    let color = ColorCode::new(Color::Green, Color::Blue);
    let shared = console(color);
    assert!(_echo(&shared, "line one\nline two").is_ok());
    _clear(&shared);
    let writer = shared.try_lock().expect("the lock is free again");
    for row in 0..BUFFER_HEIGHT {
        for col in 0..BUFFER_LENGTH {
            assert_eq!(writer.read_cell(row, col), Char { byte: b' ', color });
        }
    }
    assert_eq!(writer.row_position(), 0);
    assert_eq!(writer.column_position(), 0);
}
