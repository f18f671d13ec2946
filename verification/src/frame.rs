//! The character grid that one frame is drawn into.
use vstd::prelude::*;

verus! {

/// Number of character columns in a frame.
pub const SCREEN_WIDTH: usize = 80;

/// Number of character rows in a frame.
pub const SCREEN_HEIGHT: usize = 40;

/// The character of a cell that nothing was drawn on: a space.
pub const BLANK: u8 = 32;

/// The character of a cell on a line that is taller than wide: a vertical bar.
pub const BAR: u8 = 124;

/// The character of a cell on any other line: a dash.
pub const DASH: u8 = 45;

/// The byte that ends a line of text.
pub const NEWLINE: u8 = 10;

/// The bytes that move a terminal's cursor up by `SCREEN_HEIGHT` lines, so
/// that the next frame is written over this one: escape, `[40A`, and the
/// semicolon that trails it.
pub const CURSOR_UP: [u8; 6] = [27, 91, 52, 48, 65, 59];

/// A grid is a sequence of rows, each a sequence of cells.
pub type Grid = Seq<Seq<u8>>;

/// `ch` is one of the three characters a frame may hold.
pub open spec fn is_mark(ch: u8) -> bool {
    ch == BLANK || ch == BAR || ch == DASH
}

/// `(row, col)` names a cell of the grid.
pub open spec fn in_grid(row: int, col: int) -> bool {
    0 <= row < SCREEN_HEIGHT && 0 <= col < SCREEN_WIDTH
}

/// `g` has `SCREEN_HEIGHT` rows of `SCREEN_WIDTH` cells each.
pub open spec fn is_grid(g: Grid) -> bool {
    &&& g.len() == SCREEN_HEIGHT
    &&& forall|row: int| 0 <= row < SCREEN_HEIGHT ==> (#[trigger] g[row]).len() == SCREEN_WIDTH
}

/// Every cell of `g` holds a space, a bar or a dash.
pub open spec fn is_printable(g: Grid) -> bool {
    forall|row: int, col: int| in_grid(row, col) ==> is_mark(#[trigger] g[row][col])
}

/// The grid in which every cell is blank.
pub open spec fn blank_grid() -> Grid {
    Seq::new(SCREEN_HEIGHT as nat, |row: int| Seq::new(SCREEN_WIDTH as nat, |col: int| BLANK))
}

/// The number of bytes that the lines of a frame take as text.
pub open spec fn lines_len() -> int {
    SCREEN_HEIGHT * (SCREEN_WIDTH + 1)
}

/// The text that shows the grid `g` on a terminal: its rows from top to
/// bottom, each followed by a newline, and then the bytes that move the
/// cursor back up to the first row.
pub open spec fn grid_text(g: Grid) -> Seq<u8> {
    Seq::new(
        (lines_len() + 6) as nat,
        |i: int|
            if i >= lines_len() {
                CURSOR_UP[i - lines_len()]
            } else if i % (SCREEN_WIDTH + 1) == SCREEN_WIDTH as int {
                NEWLINE
            } else {
                g[i / (SCREEN_WIDTH + 1)][i % (SCREEN_WIDTH + 1)]
            },
    )
}

/// One frame of the animation, addressed by row and column. Row 0 is the
/// line printed first; column 0 is its leftmost character.
pub struct Frame {
    rows: [[u8; SCREEN_WIDTH]; SCREEN_HEIGHT],
}

impl View for Frame {
    type V = Grid;

    closed spec fn view(&self) -> Grid {
        Seq::new(SCREEN_HEIGHT as nat, |row: int| self.rows[row]@)
    }
}

impl Frame {
    /// The frame has the fixed dimensions and holds printable characters only.
    pub open spec fn wf(&self) -> bool {
        is_grid(self@) && is_printable(self@)
    }

    /// A frame with nothing drawn on it.
    pub fn new() -> (frame: Frame)
        ensures
            frame.wf(),
            frame@ == blank_grid(),
    {
        let frame = Frame { rows: [[BLANK; SCREEN_WIDTH]; SCREEN_HEIGHT] };
        assert(frame@ =~~= blank_grid());
        frame
    }

    /// The character at `(row, col)`, or `None` outside the grid.
    pub fn get(&self, row: usize, col: usize) -> (cell: Option<u8>)
        ensures
            cell == if in_grid(row as int, col as int) {
                Some(self@[row as int][col as int])
            } else {
                None
            },
    {
        if row < SCREEN_HEIGHT && col < SCREEN_WIDTH {
            Some(self.rows[row][col])
        } else {
            None
        }
    }

    /// Writes `mark` into the cell at `(row, col)`.
    pub(crate) fn put(&mut self, row: usize, col: usize, mark: u8)
        requires
            old(self).wf(),
            in_grid(row as int, col as int),
            is_mark(mark),
        ensures
            final(self).wf(),
            final(self)@ == old(self)@.update(
                row as int,
                old(self)@[row as int].update(col as int, mark),
            ),
    {
        self.rows[row][col] = mark;
        assert(self@ =~~= old(self)@.update(
            row as int,
            old(self)@[row as int].update(col as int, mark),
        ));
        assert forall|r: int, c: int| in_grid(r, c) implies is_mark(#[trigger] self@[r][c]) by {
            assert(is_mark(old(self)@[r][c]));
        }
    }

    /// The rows of the frame from top to bottom, each as the bytes of its
    /// `SCREEN_WIDTH` characters.
    pub fn to_rows(&self) -> (rows: Vec<Vec<u8>>)
        ensures
            rows.deep_view() == self@,
    {
        let mut rows: Vec<Vec<u8>> = Vec::new();
        let mut row: usize = 0;
        while row < SCREEN_HEIGHT
            invariant
                row <= SCREEN_HEIGHT,
                rows.len() == row,
                forall|r: int| 0 <= r < row ==> (#[trigger] rows[r])@ == self@[r],
            decreases SCREEN_HEIGHT - row,
        {
            let mut line: Vec<u8> = Vec::new();
            let mut col: usize = 0;
            while col < SCREEN_WIDTH
                invariant
                    row < SCREEN_HEIGHT,
                    col <= SCREEN_WIDTH,
                    line.len() == col,
                    forall|c: int| 0 <= c < col ==> #[trigger] line[c] == self@[row as int][c],
                decreases SCREEN_WIDTH - col,
            {
                line.push(self.rows[row][col]);
                col += 1;
            }
            assert(line@ =~= self@[row as int]);
            rows.push(line);
            row += 1;
        }
        assert(rows.deep_view() =~~= self@);
        rows
    }

    /// The bytes to write to a terminal to show the frame: every row
    /// followed by a newline, then the bytes that move the cursor up again.
    pub fn to_text(&self) -> (text: Vec<u8>)
        ensures
            text@ == grid_text(self@),
    {
        let mut text: Vec<u8> = Vec::new();
        let mut row: usize = 0;
        while row < SCREEN_HEIGHT
            invariant
                row <= SCREEN_HEIGHT,
                text.len() == row * 81,
                forall|i: int| 0 <= i < text.len() ==> #[trigger] text[i] == grid_text(self@)[i],
            decreases SCREEN_HEIGHT - row,
        {
            let mut col: usize = 0;
            while col < SCREEN_WIDTH
                invariant
                    row < SCREEN_HEIGHT,
                    col <= SCREEN_WIDTH,
                    text.len() == row * 81 + col,
                    forall|i: int|
                        0 <= i < text.len() ==> #[trigger] text[i] == grid_text(self@)[i],
                decreases SCREEN_WIDTH - col,
            {
                assert((row * 81 + col) / 81 == row && (row * 81 + col) % 81 == col);
                text.push(self.rows[row][col]);
                col += 1;
            }
            assert((row * 81 + 80) / 81 == row && (row * 81 + 80) % 81 == 80);
            text.push(NEWLINE);
            row += 1;
        }
        let mut k: usize = 0;
        while k < 6
            invariant
                k <= 6,
                text.len() == 3240 + k,
                forall|i: int| 0 <= i < text.len() ==> #[trigger] text[i] == grid_text(self@)[i],
            decreases 6 - k,
        {
            text.push(CURSOR_UP[k]);
            k += 1;
        }
        assert(text@ =~= grid_text(self@));
        text
    }
}

} // verus!
