//! The mathematical model of the display: the grid of cells, the cursor and
//! the colour in use, with the transitions that writing a byte causes.
//!
//! A cell is a pair of the character byte and the attribute byte. Rows do not
//! scroll: a line break on the last row goes back to the first row.

use vstd::prelude::*;

verus! {

/// The number of columns of the grid.
pub const BUFFER_LENGTH: usize = 80;

/// The number of rows of the grid.
pub const BUFFER_HEIGHT: usize = 24;

/// The byte that breaks the line.
pub const NEWLINE: u8 = 0x0a;

/// The byte of a blank cell.
pub const BLANK: u8 = 0x20;

/// What the display shows and where the next character goes.
pub struct Screen {
    /// The cells, row by row.
    pub cells: Seq<Seq<(u8, u8)>>,
    /// The row of the cursor.
    pub row: int,
    /// The column of the cursor; the width itself while a wrap is pending.
    pub column: int,
    /// The attribute byte given to each character written.
    pub color: u8,
}

/// The row that results from `row` when `bytes` are placed in it from
/// column `at` on, each with the attribute `color`.
pub open spec fn overlay(row: Seq<(u8, u8)>, at: int, bytes: Seq<u8>, color: u8) -> Seq<(u8, u8)> {
    Seq::new(
        row.len(),
        |c: int|
            if at <= c < at + bytes.len() {
                (bytes[c - at], color)
            } else {
                row[c]
            },
    )
}

/// The cells of a row filled with `bytes` from its first column on, each
/// with the attribute `color`.
pub open spec fn line_of(bytes: Seq<u8>, color: u8) -> Seq<(u8, u8)> {
    Seq::new(bytes.len(), |c: int| (bytes[c], color))
}

/// A row of blank cells with the attribute `color`.
pub open spec fn blank_row(color: u8) -> Seq<(u8, u8)> {
    Seq::new(BUFFER_LENGTH as nat, |c: int| (BLANK, color))
}

/// A grid of blank cells with the attribute `color`.
pub open spec fn blank_grid(color: u8) -> Seq<Seq<(u8, u8)>> {
    Seq::new(BUFFER_HEIGHT as nat, |r: int| blank_row(color))
}

/// The row after `row`: the first row after the last one.
pub open spec fn next_row(row: int) -> int {
    if row + 1 < BUFFER_HEIGHT {
        row + 1
    } else {
        0
    }
}

/// No byte of `bytes` breaks the line.
pub open spec fn no_newline(bytes: Seq<u8>) -> bool {
    forall|i: int| 0 <= i < bytes.len() ==> bytes[i] != NEWLINE
}

impl Screen {
    /// The grid has its fixed dimensions and the cursor lies within it, the
    /// column possibly one past the last.
    pub open spec fn wf(self) -> bool {
        &&& self.cells.len() == BUFFER_HEIGHT
        &&& forall|r: int| 0 <= r < BUFFER_HEIGHT ==> (#[trigger] self.cells[r]).len() == BUFFER_LENGTH
        &&& 0 <= self.row < BUFFER_HEIGHT
        &&& 0 <= self.column <= BUFFER_LENGTH
    }

    /// The cursor moves to the start of the next row, the first row after the
    /// last one. No cell changes.
    pub open spec fn new_line(self) -> Screen {
        Screen { row: next_row(self.row), column: 0, ..self }
    }

    /// The cell under the cursor takes `byte` with the colour in use, and the
    /// cursor moves one column on.
    pub open spec fn put(self, byte: u8) -> Screen {
        Screen {
            cells: self.cells.update(
                self.row,
                self.cells[self.row].update(self.column, (byte, self.color)),
            ),
            column: self.column + 1,
            ..self
        }
    }

    /// One byte is written: a line break only moves the cursor; any other
    /// byte is placed, after a line break of its own where the row is full.
    pub open spec fn write_byte(self, byte: u8) -> Screen {
        if byte == NEWLINE {
            self.new_line()
        } else if self.column >= BUFFER_LENGTH {
            self.new_line().put(byte)
        } else {
            self.put(byte)
        }
    }

    /// The bytes are written one after the other.
    pub open spec fn write_bytes(self, bytes: Seq<u8>) -> Screen
        decreases bytes.len(),
    {
        if bytes.len() == 0 {
            self
        } else {
            self.write_bytes(bytes.drop_last()).write_byte(bytes.last())
        }
    }

    /// Every cell is blank in the colour in use and the cursor is at the
    /// origin.
    pub open spec fn clear(self) -> Screen {
        Screen { cells: blank_grid(self.color), row: 0, column: 0, ..self }
    }
}

impl Screen {
    /// Writing a byte keeps the grid's dimensions and the cursor within the
    /// grid.
    pub proof fn law_byte_keeps_cursor_in_grid(self, byte: u8)
        requires
            self.wf(),
        ensures
            self.write_byte(byte).wf(),
    {
    }

    /// Writing bytes keeps the grid's dimensions and the cursor within the
    /// grid.
    pub proof fn law_bytes_keep_cursor_in_grid(self, bytes: Seq<u8>)
        requires
            self.wf(),
        ensures
            self.write_bytes(bytes).wf(),
        decreases bytes.len(),
    {
        if bytes.len() > 0 {
            self.law_bytes_keep_cursor_in_grid(bytes.drop_last());
            self.write_bytes(bytes.drop_last()).law_byte_keeps_cursor_in_grid(bytes.last());
        }
    }

    /// Writing `front` and then `back` is writing the two in one piece.
    pub proof fn law_write_in_pieces(self, front: Seq<u8>, back: Seq<u8>)
        ensures
            self.write_bytes(front + back) == self.write_bytes(front).write_bytes(back),
        decreases back.len(),
    {
        if back.len() == 0 {
            assert(front + back =~= front);
        } else {
            self.law_write_in_pieces(front, back.drop_last());
            assert((front + back).drop_last() =~= front + back.drop_last());
            assert((front + back).last() == back.last());
        }
    }

    /// A line break stores nothing: the cells and the colour stay as they
    /// are, the column becomes zero and the cursor goes to the next row, to
    /// the first row from the last one.
    pub proof fn law_newline_stores_nothing(self)
        requires
            self.wf(),
        ensures
            self.write_byte(NEWLINE).cells == self.cells,
            self.write_byte(NEWLINE).color == self.color,
            self.write_byte(NEWLINE).column == 0,
            self.write_byte(NEWLINE).row == next_row(self.row),
    {
    }

    /// Bytes without a line break that fit in what is left of the row go to
    /// the cells from the cursor on, in their order and with the colour in
    /// use. No other cell changes, the cursor stays on its row and moves on by
    /// the number of bytes.
    pub proof fn law_run_stays_in_row(self, bytes: Seq<u8>)
        requires
            self.wf(),
            no_newline(bytes),
            self.column + bytes.len() <= BUFFER_LENGTH,
        ensures
            self.write_bytes(bytes) == (Screen {
                cells: self.cells.update(
                    self.row,
                    overlay(self.cells[self.row], self.column, bytes, self.color),
                ),
                column: self.column + bytes.len(),
                ..self
            }),
        decreases bytes.len(),
    {
        let row = self.cells[self.row];
        if bytes.len() == 0 {
            assert(overlay(row, self.column, bytes, self.color) =~= row);
            assert(self.cells.update(self.row, row) =~= self.cells);
        } else {
            let front = bytes.drop_last();
            self.law_run_stays_in_row(front);
            let mid = self.write_bytes(front);
            assert(mid.write_byte(bytes.last()) == mid.put(bytes.last()));
            assert(overlay(row, self.column, front, self.color).update(
                mid.column,
                (bytes.last(), self.color),
            ) =~= overlay(row, self.column, bytes, self.color));
            assert(mid.put(bytes.last()).cells =~= self.cells.update(
                self.row,
                overlay(row, self.column, bytes, self.color),
            ));
        }
    }

    /// Reading back a run: after bytes without a line break that fit in what
    /// is left of the row are written, the cell at the old cursor plus `i`
    /// holds the byte `i` with the colour in use.
    pub proof fn law_run_reads_back(self, bytes: Seq<u8>)
        requires
            self.wf(),
            no_newline(bytes),
            self.column + bytes.len() <= BUFFER_LENGTH,
        ensures
            forall|i: int|
                0 <= i < bytes.len() ==> #[trigger] self.write_bytes(
                    bytes,
                ).cells[self.row][self.column + i] == (bytes[i], self.color),
    {
        self.law_run_stays_in_row(bytes);
    }

    /// A full line: as many bytes as the row is wide, none a line break,
    /// written from the first column, fill exactly that row, in their order
    /// and with the colour in use. The other rows stay as they are, and the
    /// cursor is left on the row, one past its last column.
    pub proof fn law_full_line_fills_row(self, bytes: Seq<u8>)
        requires
            self.wf(),
            self.column == 0,
            bytes.len() == BUFFER_LENGTH,
            no_newline(bytes),
        ensures
            self.write_bytes(bytes) == (Screen {
                cells: self.cells.update(self.row, line_of(bytes, self.color)),
                column: BUFFER_LENGTH as int,
                ..self
            }),
    {
        self.law_run_stays_in_row(bytes);
        assert(overlay(self.cells[self.row], 0, bytes, self.color) =~= line_of(bytes, self.color));
    }

    /// One byte more than a full line wraps: after the line of the law above,
    /// a further byte that is no line break goes to the first cell of the
    /// next row, and the cursor stands in the second column of that row. The
    /// line itself stays whole and no other cell changes.
    pub proof fn law_byte_after_full_line_wraps(self, bytes: Seq<u8>, byte: u8)
        requires
            self.wf(),
            self.column == 0,
            bytes.len() == BUFFER_LENGTH,
            no_newline(bytes),
            byte != NEWLINE,
        ensures
            self.write_bytes(bytes.push(byte)) == self.write_bytes(bytes).write_byte(byte),
            self.write_bytes(bytes.push(byte)) == (Screen {
                cells: self.cells.update(self.row, line_of(bytes, self.color)).update(
                    next_row(self.row),
                    self.cells[next_row(self.row)].update(0, (byte, self.color)),
                ),
                row: next_row(self.row),
                column: 1,
                ..self
            }),
            next_row(self.row) != self.row,
    {
        self.law_full_line_fills_row(bytes);
        assert(bytes.push(byte).drop_last() =~= bytes);
        assert(bytes.push(byte).last() == byte);
    }

    /// Clearing leaves every cell blank in the colour in use and the cursor
    /// at the origin.
    pub proof fn law_clear_blanks_every_cell(self)
        ensures
            self.clear().wf(),
            self.clear().row == 0,
            self.clear().column == 0,
            self.clear().color == self.color,
            forall|r: int, c: int|
                0 <= r < BUFFER_HEIGHT && 0 <= c < BUFFER_LENGTH ==> #[trigger] self.clear().cells[r][c]
                    == (BLANK, self.color),
    {
    }
}

impl Screen {
    /// The row on which byte number `i` of a text without line breaks lands,
    /// counted from zero.
    pub open spec fn landing_row(self, i: int) -> int {
        (self.row + (self.column + i) / (BUFFER_LENGTH as int)) % (BUFFER_HEIGHT as int)
    }

    /// The column in which byte number `i` of a text without line breaks
    /// lands, counted from zero.
    pub open spec fn landing_column(self, i: int) -> int {
        (self.column + i) % (BUFFER_LENGTH as int)
    }

    /// The number of the byte that lands on the cell at `row` and `col`,
    /// among the first bytes of a text without line breaks, as many as the
    /// grid has cells.
    pub open spec fn index_at(self, row: int, col: int) -> int {
        let ahead = ((row - self.row) % (BUFFER_HEIGHT as int)) * BUFFER_LENGTH + col - self.column;
        if ahead < 0 {
            ahead + BUFFER_LENGTH * BUFFER_HEIGHT
        } else {
            ahead
        }
    }

    /// The display after a text without line breaks, no longer than the grid
    /// has cells: each cell on which a byte lands holds that byte with the
    /// colour in use, and the cursor stands behind the last byte.
    pub open spec fn after_text(self, bytes: Seq<u8>) -> Screen {
        Screen {
            cells: Seq::new(
                BUFFER_HEIGHT as nat,
                |r: int|
                    Seq::new(
                        BUFFER_LENGTH as nat,
                        |c: int|
                            if self.index_at(r, c) < bytes.len() {
                                (bytes[self.index_at(r, c)], self.color)
                            } else {
                                self.cells[r][c]
                            },
                    ),
            ),
            row: self.landing_row(bytes.len() - 1),
            column: self.landing_column(bytes.len() - 1) + 1,
            color: self.color,
        }
    }

    /// Byte number `k` lands on the cell whose number is `k`, and on no
    /// other.
    pub proof fn lemma_index_at_landing(self, k: int, row: int, col: int)
        requires
            self.wf(),
            0 <= k < BUFFER_LENGTH * BUFFER_HEIGHT,
            0 <= row < BUFFER_HEIGHT,
            0 <= col < BUFFER_LENGTH,
        ensures
            0 <= self.index_at(row, col) < BUFFER_LENGTH * BUFFER_HEIGHT,
            self.index_at(row, col) == k <==> row == self.landing_row(k) && col
                == self.landing_column(k),
    {
    }

    /// A text without line breaks, no longer than the grid has cells, wraps
    /// from row to row and from the last row to the first: byte number `i`
    /// lands on the cell at `landing_row(i)` and `landing_column(i)`, no two
    /// bytes on the same cell, every other cell stays as it is, and the cursor
    /// is left behind the last byte.
    pub proof fn law_text_wraps_around(self, bytes: Seq<u8>)
        requires
            self.wf(),
            no_newline(bytes),
            0 < bytes.len() <= BUFFER_LENGTH * BUFFER_HEIGHT,
        ensures
            self.write_bytes(bytes) == self.after_text(bytes),
            forall|i: int|
                0 <= i < bytes.len() ==> #[trigger] self.write_bytes(
                    bytes,
                ).cells[self.landing_row(i)][self.landing_column(i)] == (bytes[i], self.color),
            forall|i: int, j: int|
                0 <= i < j < bytes.len() ==> self.landing_row(i) != self.landing_row(j)
                    || self.landing_column(i) != self.landing_column(j),
        decreases bytes.len(),
    {
        let front = bytes.drop_last();
        let last = bytes.len() - 1;
        let mid = self.write_bytes(front);
        if front.len() == 0 {
            assert(mid == self);
        } else {
            self.law_text_wraps_around(front);
        }
        let done = mid.write_byte(bytes.last());
        assert(done.row == self.landing_row(last));
        assert(done.column == self.landing_column(last) + 1);
        assert forall|r: int, c: int| 0 <= r < BUFFER_HEIGHT && 0 <= c < BUFFER_LENGTH implies done.cells[r][c]
            == self.after_text(bytes).cells[r][c] by {
            self.lemma_index_at_landing(last, r, c);
        }
        assert(done.cells =~~= self.after_text(bytes).cells);
        assert forall|i: int| 0 <= i < bytes.len() implies #[trigger] done.cells[self.landing_row(
            i,
        )][self.landing_column(i)] == (bytes[i], self.color) by {
            self.lemma_index_at_landing(i, self.landing_row(i), self.landing_column(i));
        }
        assert forall|i: int, j: int| 0 <= i < j < bytes.len() implies self.landing_row(i)
            != self.landing_row(j) || self.landing_column(i) != self.landing_column(j) by {
            self.lemma_index_at_landing(i, self.landing_row(j), self.landing_column(j));
            self.lemma_index_at_landing(j, self.landing_row(j), self.landing_column(j));
        }
    }
}

} // verus!
