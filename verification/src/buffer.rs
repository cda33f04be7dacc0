//! The character grid in display memory and the writer that fills it.

use crate::color::ColorCode;
use crate::screen::{blank_grid, Screen, BLANK, BUFFER_HEIGHT, BUFFER_LENGTH, NEWLINE};
use core::fmt::Write;
use spin::{Mutex, MutexGuard};
use volatile::Volatile;
use vstd::prelude::*;
use vstd::string::*;

verus! {

/// The address at which the display controller reads the grid.
pub const VGA_BUFFER_ADDRESS: usize = 0xb8000;

/// One glyph position: the character byte and its colour.
#[derive(Clone, Copy, Debug, PartialEq, Eq, Structural)]
pub struct Char {
    pub byte: u8,
    pub color: ColorCode,
}

impl View for Char {
    type V = (u8, u8);

    open spec fn view(&self) -> (u8, u8) {
        (self.byte, self.color@)
    }
}

/// `volatile::Volatile`, a value that is read and written by volatile
/// accesses only. Nothing of its inside is visible here.
#[verifier::external_type_specification]
#[verifier::external_body]
#[verifier::reject_recursive_types(T)]
pub struct ExVolatile<T: Copy>(Volatile<T>);

/// The character byte and the attribute byte that a volatile cell holds:
/// what was last written to it, or what it was made with.
pub uninterp spec fn stored(cell: Volatile<Char>) -> (u8, u8);

/// `Volatile::write`, a volatile store: the cell holds `value` afterwards.
/// It never panics.
#[verifier::external_body]
fn store(cell: &mut Volatile<Char>, value: Char)
    ensures
        stored(*final(cell)) == value@,
    no_unwind
{
    cell.write(value)
}

/// `Volatile::read`, a volatile load: a copy of what the cell holds.
#[verifier::external_body]
fn load(cell: &Volatile<Char>) -> (value: Char)
    ensures
        value@ == stored(*cell),
{
    cell.read()
}

/// `Volatile::new`: a cell in ordinary memory that holds `value`.
#[verifier::external_body]
fn fresh(value: Char) -> (cell: Volatile<Char>)
    ensures
        stored(cell) == value@,
{
    Volatile::new(value)
}

/// The conversion of std from a `Vec` to an array, `TryFrom<Vec<T>>` for
/// `[T; N]`: the items of the vector in their order where there are exactly
/// `N` of them, and nothing otherwise.
#[verifier::external_body]
fn into_array<T, const N: usize>(items: Vec<T>) -> (array: Option<[T; N]>)
    ensures
        items.len() == N ==> array is Some && array->0@ == items@,
        items.len() != N ==> array is None,
{
    items.try_into().ok()
}

/// The grid of cells that the display controller paints, row by row.
pub struct Buffer {
    content: [[Volatile<Char>; BUFFER_LENGTH]; BUFFER_HEIGHT],
}

impl View for Buffer {
    type V = Seq<Seq<(u8, u8)>>;

    /// The cells, row by row.
    open spec fn view(&self) -> Seq<Seq<(u8, u8)>> {
        Seq::new(
            BUFFER_HEIGHT as nat,
            |r: int| Seq::new(BUFFER_LENGTH as nat, |c: int| self.cell(r, c)),
        )
    }
}

impl Buffer {
    /// What the cell at `row` and `col` holds.
    pub closed spec fn cell(&self, row: int, col: int) -> (u8, u8) {
        stored(self.content[row][col])
    }

    /// A grid in ordinary memory, every cell blank in the colour
    /// `fill_color`.
    pub fn blank(fill_color: ColorCode) -> (buffer: Buffer)
        ensures
            buffer@ == blank_grid(fill_color@),
    {
        let blank = Char { byte: BLANK, color: fill_color };
        let mut rows: Vec<[Volatile<Char>; BUFFER_LENGTH]> = Vec::new();
        while rows.len() < BUFFER_HEIGHT
            invariant
                rows.len() <= BUFFER_HEIGHT,
                blank@ == (BLANK, fill_color@),
                forall|r: int, c: int|
                    0 <= r < rows.len() && 0 <= c < BUFFER_LENGTH ==> stored(
                        #[trigger] rows@[r][c],
                    ) == blank@,
            decreases BUFFER_HEIGHT - rows.len(),
        {
            let mut cells: Vec<Volatile<Char>> = Vec::new();
            while cells.len() < BUFFER_LENGTH
                invariant
                    cells.len() <= BUFFER_LENGTH,
                    forall|c: int| 0 <= c < cells.len() ==> stored(#[trigger] cells@[c]) == blank@,
                decreases BUFFER_LENGTH - cells.len(),
            {
                cells.push(fresh(blank));
            }
            let row: Option<[Volatile<Char>; BUFFER_LENGTH]> = into_array(cells);
            rows.push(row.unwrap());
        }
        let content: Option<[[Volatile<Char>; BUFFER_LENGTH]; BUFFER_HEIGHT]> = into_array(rows);
        let buffer = Buffer { content: content.unwrap() };
        assert(buffer@ =~~= blank_grid(fill_color@));
        buffer
    }

    /// Stores `value` in the cell at `row` and `col`. No other cell changes.
    pub fn write_cell(&mut self, row: usize, col: usize, value: Char)
        requires
            row < BUFFER_HEIGHT,
            col < BUFFER_LENGTH,
        ensures
            final(self)@ == old(self)@.update(
                row as int,
                old(self)@[row as int].update(col as int, value@),
            ),
        no_unwind
    {
        store(&mut self.content[row][col], value);
        assert(self@ =~~= old(self)@.update(
            row as int,
            old(self)@[row as int].update(col as int, value@),
        ));
    }

    /// Reads the cell at `row` and `col`.
    pub fn read_cell(&self, row: usize, col: usize) -> (value: Char)
        requires
            row < BUFFER_HEIGHT,
            col < BUFFER_LENGTH,
        ensures
            value@ == self@[row as int][col as int],
    {
        load(&self.content[row][col])
    }

    /// Blanks every cell, with the colour `fill_color`.
    pub fn clear(&mut self, fill_color: ColorCode)
        ensures
            final(self)@ == blank_grid(fill_color@),
        no_unwind
    {
        let blank = Char { byte: BLANK, color: fill_color };
        let mut row: usize = 0;
        while row < BUFFER_HEIGHT
            invariant
                row <= BUFFER_HEIGHT,
                blank@ == (BLANK, fill_color@),
                forall|r: int, c: int|
                    0 <= r < row && 0 <= c < BUFFER_LENGTH ==> self@[r][c] == blank@,
            decreases BUFFER_HEIGHT - row,
        {
            let mut col: usize = 0;
            while col < BUFFER_LENGTH
                invariant
                    row < BUFFER_HEIGHT,
                    col <= BUFFER_LENGTH,
                    blank@ == (BLANK, fill_color@),
                    forall|r: int, c: int|
                        0 <= r < row && 0 <= c < BUFFER_LENGTH ==> self@[r][c] == blank@,
                    forall|c: int| 0 <= c < col ==> self@[row as int][c] == blank@,
                decreases BUFFER_LENGTH - col,
            {
                self.write_cell(row, col, blank);
                col += 1;
            }
            row += 1;
        }
        assert(self@ =~~= blank_grid(fill_color@));
    }
}

/// The cursor, the colour in use and the grid that the bytes go to.
pub struct Writer {
    buffer: &'static mut Buffer,
    color_code: ColorCode,
    column_position: usize,
    row_position: usize,
}

impl View for Writer {
    type V = Screen;

    closed spec fn view(&self) -> Screen {
        Screen {
            cells: self.buffer@,
            row: self.row_position as int,
            column: self.column_position as int,
            color: self.color_code@,
        }
    }
}

impl Writer {
    /// The cursor lies within the grid, the column possibly one past the
    /// last.
    #[verifier::type_invariant]
    spec fn cursor_in_grid(&self) -> bool {
        &&& self.column_position <= BUFFER_LENGTH
        &&& self.row_position < BUFFER_HEIGHT
    }

    /// A writer on `buffer` with the given colour and cursor. The cells are
    /// left as they are.
    pub fn new(
        buffer: &'static mut Buffer,
        color_code: ColorCode,
        column_position: usize,
        row_position: usize,
    ) -> (writer: Writer)
        requires
            column_position <= BUFFER_LENGTH,
            row_position < BUFFER_HEIGHT,
        ensures
            writer@ == (Screen {
                cells: old(buffer)@,
                row: row_position as int,
                column: column_position as int,
                color: color_code@,
            }),
            writer@.wf(),
    {
        Writer { buffer, color_code, column_position, row_position }
    }

    /// Blanks the whole grid in the colour in use and puts the cursor at the
    /// origin.
    pub fn clear(&mut self)
        ensures
            final(self)@ == old(self)@.clear(),
            final(self)@.wf(),
    {
        proof {
            use_type_invariant(&*self);
        }
        let color_code = self.color_code;
        self.buffer.clear(color_code);
        self.row_position = 0;
        self.column_position = 0;
    }

    /// Moves the cursor to the start of the next row, or of the first row
    /// when it was on the last one. No cell changes.
    pub fn new_line(&mut self)
        ensures
            final(self)@ == old(self)@.new_line(),
            final(self)@.wf(),
    {
        proof {
            use_type_invariant(&*self);
        }
        self.row_position = (self.row_position + 1) % BUFFER_HEIGHT;
        self.column_position = 0;
    }

    /// Writes one byte. A line break moves the cursor and stores nothing. Any
    /// other byte is stored under the cursor, after a line break where the
    /// row is full, and the cursor moves one column on.
    pub fn write_byte(&mut self, byte: u8)
        ensures
            final(self)@ == old(self)@.write_byte(byte),
            final(self)@.wf(),
    {
        let color_code = self.color_code;
        if byte == NEWLINE {
            self.new_line();
        } else {
            if self.column_position >= BUFFER_LENGTH {
                self.new_line();
            }
            proof {
                use_type_invariant(&*self);
            }
            let row = self.row_position;
            let col = self.column_position;
            self.buffer.write_cell(row, col, Char { byte, color: color_code });
            self.column_position += 1;
        }
    }

    /// The row of the cursor.
    pub fn row_position(&self) -> (row: usize)
        ensures
            row == self@.row,
            row < BUFFER_HEIGHT,
    {
        proof {
            use_type_invariant(self);
        }
        self.row_position
    }

    /// The column of the cursor: the width itself while a wrap is pending.
    pub fn column_position(&self) -> (column: usize)
        ensures
            column == self@.column,
            column <= BUFFER_LENGTH,
    {
        proof {
            use_type_invariant(self);
        }
        self.column_position
    }

    /// The colour given to each character written.
    pub fn color_code(&self) -> (color_code: ColorCode)
        ensures
            color_code@ == self@.color,
    {
        self.color_code
    }

    /// Reads the cell at `row` and `col` of the grid.
    pub fn read_cell(&self, row: usize, col: usize) -> (value: Char)
        requires
            row < BUFFER_HEIGHT,
            col < BUFFER_LENGTH,
        ensures
            value@ == self@.cells[row as int][col as int],
    {
        self.buffer.read_cell(row, col)
    }
}

impl Write for Writer {
    /// Writes the bytes of `string` one after the other. It never fails.
    fn write_str(&mut self, string: &str) -> (result: core::fmt::Result)
        ensures
            result is Ok,
            final(self)@ == old(self)@.write_bytes(string.spec_bytes()),
            final(self)@.wf(),
    {
        proof {
            use_type_invariant(&*self);
        }
        let ghost start = self@;
        let bytes = string.as_bytes();
        let mut i: usize = 0;
        while i < bytes.len()
            invariant
                i <= bytes.len(),
                bytes@ == string.spec_bytes(),
                self@ == start.write_bytes(bytes@.take(i as int)),
                self@.wf(),
            decreases bytes.len() - i,
        {
            self.write_byte(bytes[i]);
            proof {
                assert(bytes@.take(i + 1).drop_last() =~= bytes@.take(i as int));
            }
            i += 1;
        }
        assert(bytes@.take(i as int) =~= bytes@);
        Ok(())
    }
}

/// `core::fmt::Error`, the error of the text-writing interface.
#[verifier::external_type_specification]
#[verifier::external_body]
pub struct ExFmtError(core::fmt::Error);

/// `spin::Mutex`, the lock that serialises access to the writer.
#[verifier::external_type_specification]
#[verifier::external_body]
#[verifier::reject_recursive_types(T)]
pub struct ExMutex<T: ?Sized>(Mutex<T>);

/// `spin::MutexGuard`, which gives access to what the lock guards and
/// releases the lock when it goes out of scope.
#[verifier::external_type_specification]
#[verifier::external_body]
#[verifier::reject_recursive_types(T)]
pub struct ExMutexGuard<'a, T: ?Sized + 'a>(MutexGuard<'a, T>);

/// `spin::Mutex::lock` spins until the lock is free and takes it; it does
/// not come back while another guard of the same lock lives. Nothing is
/// claimed of what the guard gives access to: an earlier holder may have left
/// the guarded value in any state.
pub assume_specification<T: ?Sized>[ Mutex::<T>::lock ](mutex: &Mutex<T>) -> (guard: MutexGuard<
    '_,
    T,
>)
;

/// `DerefMut::deref_mut` of `spin::MutexGuard`: the guarded writer, in
/// whatever state it is.
#[verifier::external_body]
fn guarded<'a, 'b>(guard: &'a mut MutexGuard<'b, Writer>) -> (writer: &'a mut Writer) {
    &mut **guard
}

/// Writes `text` on the shared console as `Writer::write_str` does, holding
/// the lock for the whole text, and releases the lock. It never fails. The
/// caller holds no guard of `console` when it calls.
pub fn _echo(console: &Mutex<Writer>, text: &str) -> (result: core::fmt::Result)
    ensures
        result is Ok,
{
    let mut guard = console.lock();
    let writer = guarded(&mut guard);
    writer.write_str(text)
}

/// Clears the shared console as `Writer::clear` does, holding the lock
/// meanwhile, and releases the lock. The caller holds no guard of `console`
/// when it calls.
pub fn _clear(console: &Mutex<Writer>) {
    let mut guard = console.lock();
    let writer = guarded(&mut guard);
    writer.clear();
}

} // verus!
