//! A terminal emulator for the serial line: an 80 by 24 grid of
//! characters, a cursor, and the subset of VT220 control sequences that
//! programs for the machine use.

use crate::text::push_char;
use vstd::prelude::*;
use vstd::string::*;

verus! {

/// Columns of the screen.
pub const TERM_COLS: usize = 80;

/// Rows of the screen.
pub const TERM_ROWS: usize = 24;

/// Cells of the screen.
pub const TERM_CELLS: usize = 1920;

/// Where the emulator is in an escape sequence.
#[derive(Clone, Copy, Debug, PartialEq, Eq, Structural)]
pub enum EscapeState {
    /// Outside any sequence.
    Normal,
    /// After `ESC`.
    Escape,
    /// After `ESC [`: collecting a control sequence.
    Csi,
}

/// The state of the terminal.
pub struct TerminalState {
    /// The cells row by row: the cell in row `r`, column `c` is at
    /// `r * 80 + c`.
    pub cells: Seq<char>,
    pub row: int,
    pub col: int,
    pub visible: bool,
    pub escape: EscapeState,
    /// The bytes of the control sequence collected so far.
    pub pending: Seq<u8>,
}

/// The state has the screen's dimensions and the cursor is on the screen.
pub open spec fn on_screen(t: TerminalState) -> bool {
    &&& t.cells.len() == 1920
    &&& 0 <= t.row < 24
    &&& 0 <= t.col < 80
}

/// A terminal that has just been switched on: a blank screen, the cursor
/// visible in the top left corner.
pub open spec fn blank_terminal() -> TerminalState {
    TerminalState {
        cells: Seq::new(1920, |i: int| ' '),
        row: 0,
        col: 0,
        visible: true,
        escape: EscapeState::Normal,
        pending: Seq::empty(),
    }
}

/// The cells with those from `from` up to but not including `to` blanked.
pub open spec fn cleared(cells: Seq<char>, from: int, to: int) -> Seq<char> {
    Seq::new(cells.len(), |i: int| if from <= i < to { ' ' } else { cells[i] })
}

/// The cells after the screen has moved up one row: the top row is gone
/// and the bottom row is blank.
pub open spec fn scrolled(cells: Seq<char>) -> Seq<char> {
    Seq::new(cells.len(), |i: int| if i + 80 < cells.len() { cells[i + 80] } else { ' ' })
}

/// The state after the cursor has gone down one row; at the bottom the
/// screen scrolls instead.
pub open spec fn line_feed(t: TerminalState) -> TerminalState {
    if t.row + 1 >= 24 {
        TerminalState { cells: scrolled(t.cells), row: 23, ..t }
    } else {
        TerminalState { row: t.row + 1, ..t }
    }
}

/// The state after a byte outside any escape sequence. `ESC` starts a
/// sequence; carriage return, line feed, backspace and tab move the
/// cursor; a printable character is written at the cursor, which moves
/// on and wraps to the next row; any other byte is ignored.
pub open spec fn normal_spec(t: TerminalState, c: u8) -> TerminalState {
    if c == 0x1B {
        TerminalState { escape: EscapeState::Escape, pending: Seq::empty(), ..t }
    } else if c == 0x0D {
        TerminalState { col: 0, ..t }
    } else if c == 0x0A {
        line_feed(t)
    } else if c == 0x08 {
        TerminalState { col: if t.col > 0 { t.col - 1 } else { t.col }, ..t }
    } else if c == 0x09 {
        let stop = (t.col / 8 + 1) * 8;
        TerminalState { col: if stop >= 80 { 79 } else { stop }, ..t }
    } else if 0x20 <= c <= 0x7E {
        let written = TerminalState { cells: t.cells.update(t.row * 80 + t.col, c as char), ..t };
        if t.col + 1 >= 80 {
            line_feed(TerminalState { col: 0, ..written })
        } else {
            TerminalState { col: t.col + 1, ..written }
        }
    } else {
        t
    }
}

/// The value of a run of decimal digits, read from the left, unless it
/// goes beyond `usize::MAX` or a byte is no digit.
pub open spec fn decimal_value(bytes: Seq<u8>, n: int) -> Option<int>
    decreases n,
{
    if n <= 0 {
        Some(0)
    } else {
        match decimal_value(bytes, n - 1) {
            None => None,
            Some(acc) => {
                let b = bytes[n - 1];
                if 0x30 <= b <= 0x39 && acc * 10 + (b - 0x30) <= usize::MAX {
                    Some(acc * 10 + (b - 0x30))
                } else {
                    None
                }
            },
        }
    }
}

/// The number that a parameter spells: decimal digits, which a plus sign
/// may precede.
pub open spec fn parameter_value(bytes: Seq<u8>) -> Option<usize> {
    let digits = if bytes.len() > 0 && bytes[0] == 0x2B {
        bytes.subrange(1, bytes.len() as int)
    } else {
        bytes
    };
    if digits.len() == 0 {
        None
    } else {
        match decimal_value(digits, digits.len() as int) {
            Some(v) => Some(v as usize),
            None => None,
        }
    }
}

/// Where the parameter that starts at `from` ends: at the next semicolon
/// or at `end`.
pub open spec fn piece_end(bytes: Seq<u8>, from: int, end: int) -> int
    decreases end - from,
{
    if from < end && bytes[from] != 0x3B {
        piece_end(bytes, from + 1, end)
    } else {
        from
    }
}

/// The parameters among the first `end` bytes that spell numbers, from
/// `from` on, appended to `acc`. Parameters are separated by semicolons;
/// those that spell no number are left out.
pub open spec fn parameters_from(bytes: Seq<u8>, from: int, end: int, acc: Seq<usize>) -> Seq<
    usize,
>
    decreases end - from + 1,
{
    if from > end {
        acc
    } else {
        let stop = piece_end(bytes, from, end);
        let grown = match parameter_value(bytes.subrange(from, stop)) {
            Some(v) => acc.push(v),
            None => acc,
        };
        if from <= stop <= end {
            parameters_from(bytes, stop + 1, end, grown)
        } else {
            grown
        }
    }
}

/// A number lowered by `by`, but not below zero.
pub open spec fn lowered(n: int, by: int) -> int {
    if n >= by {
        n - by
    } else {
        0
    }
}

/// The smaller of two numbers.
pub open spec fn at_most(n: int, limit: int) -> int {
    if n <= limit {
        n
    } else {
        limit
    }
}

/// The state after the control sequence in `t.pending` is carried out. Its
/// last byte chooses the operation: `H` and `f` place the cursor, `J`
/// erases part of the screen, `K` part of the line, `A`, `B`, `C` and `D`
/// move the cursor, and `?25h` and `?25l` show and hide it. Any other
/// sequence does nothing.
pub open spec fn csi_spec(t: TerminalState) -> TerminalState {
    let seq = t.pending;
    let n = seq.len() as int;
    if n == 0 {
        t
    } else {
        let last = seq[n - 1];
        let whole = parameter_value(seq.subrange(0, n - 1));
        let here = t.row * 80 + t.col;
        if last == 0x48 || last == 0x66 {
            let params = parameters_from(seq, 0, n - 1, Seq::empty());
            let row: int = if params.len() > 0 {
                params[0] as int
            } else {
                1
            };
            let col: int = if params.len() > 1 {
                params[1] as int
            } else {
                1
            };
            TerminalState { row: at_most(lowered(row, 1), 23), col: at_most(lowered(col, 1), 79), ..t }
        } else if last == 0x4A {
            let param: int = match whole {
                Some(v) => v as int,
                None => 0,
            };
            if param == 0 {
                TerminalState { cells: cleared(t.cells, here, 1920), ..t }
            } else if param == 1 {
                TerminalState { cells: cleared(t.cells, 0, here + 1), ..t }
            } else if param == 2 {
                TerminalState { cells: cleared(t.cells, 0, 1920), row: 0, col: 0, ..t }
            } else {
                t
            }
        } else if last == 0x4B {
            let param: int = match whole {
                Some(v) => v as int,
                None => 0,
            };
            if param == 0 {
                TerminalState { cells: cleared(t.cells, here, t.row * 80 + 80), ..t }
            } else if param == 1 {
                TerminalState { cells: cleared(t.cells, t.row * 80, here + 1), ..t }
            } else if param == 2 {
                TerminalState { cells: cleared(t.cells, t.row * 80, t.row * 80 + 80), ..t }
            } else {
                t
            }
        } else if last == 0x41 || last == 0x42 || last == 0x43 || last == 0x44 {
            let count: int = match whole {
                Some(v) => v as int,
                None => 1,
            };
            if last == 0x41 {
                TerminalState { row: lowered(t.row, count), ..t }
            } else if last == 0x42 {
                TerminalState { row: at_most(t.row + count, 23), ..t }
            } else if last == 0x43 {
                TerminalState { col: at_most(t.col + count, 79), ..t }
            } else {
                TerminalState { col: lowered(t.col, count), ..t }
            }
        } else if seq == seq![0x3Fu8, 0x32u8, 0x35u8, 0x68u8] {
            TerminalState { visible: true, ..t }
        } else if seq == seq![0x3Fu8, 0x32u8, 0x35u8, 0x6Cu8] {
            TerminalState { visible: false, ..t }
        } else {
            t
        }
    }
}

/// The state after one byte from the serial line.
pub open spec fn putchar_spec(t: TerminalState, c: u8) -> TerminalState {
    match t.escape {
        EscapeState::Normal => normal_spec(t, c),
        EscapeState::Escape => TerminalState {
            escape: if c == 0x5B {
                EscapeState::Csi
            } else {
                EscapeState::Normal
            },
            ..t
        },
        EscapeState::Csi => {
            let collected = TerminalState { pending: t.pending.push(c), ..t };
            if 0x40 <= c <= 0x7E {
                TerminalState { escape: EscapeState::Normal, ..csi_spec(collected) }
            } else {
                collected
            }
        },
    }
}

/// The characters of row `r`.
pub open spec fn row_text(t: TerminalState, r: int) -> Seq<char> {
    t.cells.subrange(r * 80, r * 80 + 80)
}

/// The cursor: always on the screen.
pub struct Cursor {
    row: usize,
    col: usize,
}

impl Cursor {
    #[verifier::type_invariant]
    spec fn is_on_screen(self) -> bool {
        self.row < 24 && self.col < 80
    }

    /// The row of the cursor.
    pub closed spec fn row_view(&self) -> int {
        self.row as int
    }

    /// The column of the cursor.
    pub closed spec fn col_view(&self) -> int {
        self.col as int
    }

    /// A cursor in the top left corner.
    pub fn new() -> (c: Cursor)
        ensures
            c.row_view() == 0,
            c.col_view() == 0,
    {
        Cursor { row: 0, col: 0 }
    }

    /// The row of the cursor.
    pub fn row(&self) -> (r: usize)
        ensures
            r == self.row_view(),
            r < 24,
            0 <= self.col_view() < 80,
    {
        proof {
            use_type_invariant(self);
        }
        self.row
    }

    /// The column of the cursor.
    pub fn col(&self) -> (c: usize)
        ensures
            c == self.col_view(),
            c < 80,
            0 <= self.row_view() < 24,
    {
        proof {
            use_type_invariant(self);
        }
        self.col
    }

    /// Moves the cursor to a cell of the screen.
    pub fn place(&mut self, row: usize, col: usize)
        requires
            row < 24,
            col < 80,
        ensures
            final(self).row_view() == row,
            final(self).col_view() == col,
    {
        *self = Cursor { row, col };
    }
}

/// The terminal emulator.
pub struct TerminalEmulator {
    buffer: [char; 1920],
    cursor: Cursor,
    cursor_visible: bool,
    escape_state: EscapeState,
    escape_buffer: Vec<u8>,
}

impl View for TerminalEmulator {
    type V = TerminalState;

    closed spec fn view(&self) -> TerminalState {
        TerminalState {
            cells: self.buffer@,
            row: self.cursor.row_view(),
            col: self.cursor.col_view(),
            visible: self.cursor_visible,
            escape: self.escape_state,
            pending: self.escape_buffer@,
        }
    }
}

/// Reads the parameter in `bytes[from..to]`.
fn parse_parameter(bytes: &Vec<u8>, from: usize, to: usize) -> (r: Option<usize>)
    requires
        from <= to <= bytes.len(),
    ensures
        r == parameter_value(bytes@.subrange(from as int, to as int)),
{
    let ghost piece = bytes@.subrange(from as int, to as int);
    let start = if from < to && bytes[from] == 0x2B {
        from + 1
    } else {
        from
    };
    let ghost digits = bytes@.subrange(start as int, to as int);
    assert(digits =~= if piece.len() > 0 && piece[0] == 0x2B {
        piece.subrange(1, piece.len() as int)
    } else {
        piece
    });
    if start == to {
        return None;
    }
    let mut acc: usize = 0;
    let mut i: usize = start;
    while i < to
        invariant
            start <= i <= to <= bytes.len(),
            from <= to,
            digits == bytes@.subrange(start as int, to as int),
            decimal_value(digits, i - start) == Some(acc as int),
            parameter_value(bytes@.subrange(from as int, to as int)) == (match decimal_value(
                digits,
                digits.len() as int,
            ) {
                Some(v) => Some(v as usize),
                None => None::<usize>,
            }),
        decreases to - i,
    {
        let b = bytes[i];
        assert(digits[i - start] == b);
        if b < 0x30 || b > 0x39 {
            proof {
                lemma_decimal_none_stays(digits, i - start + 1, digits.len() as int);
            }
            return None;
        }
        let next = match acc.checked_mul(10) {
            Some(tens) => tens.checked_add((b - 0x30) as usize),
            None => None,
        };
        match next {
            Some(v) => {
                acc = v;
            },
            None => {
                proof {
                    lemma_decimal_none_stays(digits, i - start + 1, digits.len() as int);
                }
                return None;
            },
        }
        i += 1;
    }
    Some(acc)
}

/// Once the reading of a number has failed, more bytes do not mend it.
proof fn lemma_decimal_none_stays(bytes: Seq<u8>, k: int, n: int)
    requires
        0 <= k <= n,
        decimal_value(bytes, k) is None,
    ensures
        decimal_value(bytes, n) is None,
    decreases n - k,
{
    if k < n {
        lemma_decimal_none_stays(bytes, k, n - 1);
    }
}

/// Reads the parameters among the first `end` bytes that spell numbers.
fn parse_parameters(bytes: &Vec<u8>, end: usize) -> (r: Vec<usize>)
    requires
        end < bytes.len(),
    ensures
        r@ == parameters_from(bytes@, 0, end as int, Seq::empty()),
{
    let mut params: Vec<usize> = Vec::new();
    let mut from: usize = 0;
    while from <= end
        invariant
            from <= end + 1,
            end < bytes.len(),
            parameters_from(bytes@, 0, end as int, Seq::empty()) == parameters_from(
                bytes@,
                from as int,
                end as int,
                params@,
            ),
        decreases end + 1 - from,
    {
        let mut stop = from;
        while stop < end && bytes[stop] != 0x3B
            invariant
                from <= stop <= end < bytes.len(),
                piece_end(bytes@, stop as int, end as int) == piece_end(
                    bytes@,
                    from as int,
                    end as int,
                ),
            decreases end - stop,
        {
            stop += 1;
        }
        match parse_parameter(bytes, from, stop) {
            Some(v) => {
                params.push(v);
            },
            None => {},
        }
        from = stop + 1;
    }
    params
}

impl TerminalEmulator {
    /// A blank terminal.
    pub fn new() -> (t: TerminalEmulator)
        ensures
            t@ == blank_terminal(),
            on_screen(t@),
    {
        let t = TerminalEmulator {
            buffer: [' '; 1920],
            cursor: Cursor::new(),
            cursor_visible: true,
            escape_state: EscapeState::Normal,
            escape_buffer: Vec::new(),
        };
        assert(t@.cells =~= blank_terminal().cells);
        assert(t@.pending =~= blank_terminal().pending);
        t
    }

    /// The cursor is on the screen.
    fn check(&self)
        ensures
            on_screen(self@),
    {
        let _ = self.cursor.row();
    }

    /// Takes one byte from the serial line.
    pub fn putchar(&mut self, c: u8)
        ensures
            final(self)@ == putchar_spec(old(self)@, c),
            on_screen(final(self)@),
    {
        match self.escape_state {
            EscapeState::Normal => self.handle_normal(c),
            EscapeState::Escape => self.handle_escape(c),
            EscapeState::Csi => self.handle_csi(c),
        }
        self.check();
    }

    /// A byte outside any escape sequence.
    fn handle_normal(&mut self, c: u8)
        ensures
            final(self)@ == normal_spec(old(self)@, c),
    {
        let row = self.cursor.row();
        let col = self.cursor.col();
        if c == 0x1B {
            self.escape_state = EscapeState::Escape;
            self.escape_buffer = Vec::new();
            assert(self@.pending =~= Seq::empty());
        } else if c == 0x0D {
            self.cursor.place(row, 0);
        } else if c == 0x0A {
            self.line_feed();
        } else if c == 0x08 {
            if col > 0 {
                self.cursor.place(row, col - 1);
            }
        } else if c == 0x09 {
            let stop = (col / 8 + 1) * 8;
            self.cursor.place(row, if stop >= 80 { 79 } else { stop });
        } else if c >= 0x20 && c <= 0x7E {
            self.buffer[row * 80 + col] = c as char;
            if col + 1 >= 80 {
                self.cursor.place(row, 0);
                self.line_feed();
            } else {
                self.cursor.place(row, col + 1);
            }
        }
    }

    /// Moves the cursor down one row, scrolling at the bottom.
    fn line_feed(&mut self)
        ensures
            final(self)@ == line_feed(old(self)@),
    {
        let row = self.cursor.row();
        let col = self.cursor.col();
        if row + 1 >= 24 {
            self.scroll_up();
            self.cursor.place(23, col);
        } else {
            self.cursor.place(row + 1, col);
        }
    }

    /// The byte after `ESC`.
    fn handle_escape(&mut self, c: u8)
        requires
            old(self)@.escape == EscapeState::Escape,
        ensures
            final(self)@ == putchar_spec(old(self)@, c),
    {
        if c == 0x5B {
            self.escape_state = EscapeState::Csi;
        } else {
            self.escape_state = EscapeState::Normal;
        }
    }

    /// A byte of a control sequence.
    fn handle_csi(&mut self, c: u8)
        requires
            old(self)@.escape == EscapeState::Csi,
        ensures
            final(self)@ == putchar_spec(old(self)@, c),
    {
        self.escape_buffer.push(c);
        if c >= 0x40 && c <= 0x7E {
            self.execute_csi();
            self.escape_state = EscapeState::Normal;
        }
    }

    /// Carries out the control sequence that has been collected.
    #[verifier::rlimit(40)]
    fn execute_csi(&mut self)
        ensures
            final(self)@ == csi_spec(old(self)@),
    {
        let n = self.escape_buffer.len();
        if n == 0 {
            return ;
        }
        let row = self.cursor.row();
        let col = self.cursor.col();
        let last = self.escape_buffer[n - 1];
        let whole = parse_parameter(&self.escape_buffer, 0, n - 1);
        if last == 0x48 || last == 0x66 {
            let params = parse_parameters(&self.escape_buffer, n - 1);
            let r: usize = if params.len() > 0 {
                params[0]
            } else {
                1
            };
            let c: usize = if params.len() > 1 {
                params[1]
            } else {
                1
            };
            let r = r.saturating_sub(1);
            let c = c.saturating_sub(1);
            self.cursor.place(if r <= 23 { r } else { 23 }, if c <= 79 { c } else { 79 });
        } else if last == 0x4A {
            let param = match whole {
                Some(v) => v,
                None => 0,
            };
            if param == 0 {
                self.clear_to_end();
            } else if param == 1 {
                self.clear_to_start();
            } else if param == 2 {
                self.clear_screen();
            }
        } else if last == 0x4B {
            let param = match whole {
                Some(v) => v,
                None => 0,
            };
            if param == 0 {
                self.clear_line_to_end();
            } else if param == 1 {
                self.clear_line_to_start();
            } else if param == 2 {
                self.clear_line();
            }
        } else if last == 0x41 || last == 0x42 || last == 0x43 || last == 0x44 {
            let count = match whole {
                Some(v) => v,
                None => 1,
            };
            if last == 0x41 {
                self.cursor.place(row.saturating_sub(count), col);
            } else if last == 0x42 {
                let down = row.saturating_add(count);
                self.cursor.place(if down <= 23 { down } else { 23 }, col);
            } else if last == 0x43 {
                let right = col.saturating_add(count);
                self.cursor.place(row, if right <= 79 { right } else { 79 });
            } else {
                self.cursor.place(row, col.saturating_sub(count));
            }
        } else if n == 4 && self.escape_buffer[0] == 0x3F && self.escape_buffer[1] == 0x32
            && self.escape_buffer[2] == 0x35 && last == 0x68 {
            assert(self@.pending =~= seq![0x3Fu8, 0x32u8, 0x35u8, 0x68u8]);
            self.cursor_visible = true;
        } else if n == 4 && self.escape_buffer[0] == 0x3F && self.escape_buffer[1] == 0x32
            && self.escape_buffer[2] == 0x35 && last == 0x6C {
            assert(self@.pending =~= seq![0x3Fu8, 0x32u8, 0x35u8, 0x6Cu8]);
            self.cursor_visible = false;
        } else {
            assert(self@.pending != seq![0x3Fu8, 0x32u8, 0x35u8, 0x68u8]) by {
                if self@.pending == seq![0x3Fu8, 0x32u8, 0x35u8, 0x68u8] {
                    assert(self@.pending.len() == 4);
                    assert(self@.pending[0] == 0x3F);
                    assert(self@.pending[1] == 0x32);
                    assert(self@.pending[2] == 0x35);
                    assert(self@.pending[3] == 0x68);
                }
            }
            assert(self@.pending != seq![0x3Fu8, 0x32u8, 0x35u8, 0x6Cu8]) by {
                if self@.pending == seq![0x3Fu8, 0x32u8, 0x35u8, 0x6Cu8] {
                    assert(self@.pending.len() == 4);
                    assert(self@.pending[0] == 0x3F);
                    assert(self@.pending[1] == 0x32);
                    assert(self@.pending[2] == 0x35);
                    assert(self@.pending[3] == 0x6C);
                }
            }
        }
    }

    /// Blanks the cells from `from` up to but not including `to`.
    fn clear_range(&mut self, from: usize, to: usize)
        requires
            to <= 1920,
        ensures
            final(self)@ == (TerminalState {
                cells: cleared(old(self)@.cells, from as int, to as int),
                ..old(self)@
            }),
    {
        if from >= to {
            assert(self@.cells =~= cleared(old(self)@.cells, from as int, to as int));
            return ;
        }
        let mut i = from;
        assert(self.buffer@ =~= cleared(old(self).buffer@, from as int, i as int));
        while i < to
            invariant
                from <= i <= to <= 1920,
                self.buffer@ == cleared(old(self).buffer@, from as int, i as int),
                self@ == (TerminalState { cells: self@.cells, ..old(self)@ }),
            decreases to - i,
        {
            self.buffer[i] = ' ';
            assert(self.buffer@ =~= cleared(old(self).buffer@, from as int, i + 1));
            i += 1;
        }
        assert(self@.cells =~= cleared(old(self)@.cells, from as int, to as int));
    }

    /// Moves the screen up one row.
    fn scroll_up(&mut self)
        ensures
            final(self)@ == (TerminalState { cells: scrolled(old(self)@.cells), ..old(self)@ }),
    {
        let mut i: usize = 0;
        while i < 1840
            invariant
                i <= 1840,
                forall|j: int| 0 <= j < i ==> self.buffer@[j] == old(self).buffer@[j + 80],
                forall|j: int| i <= j < 1920 ==> self.buffer@[j] == old(self).buffer@[j],
                self@ == (TerminalState { cells: self@.cells, ..old(self)@ }),
            decreases 1840 - i,
        {
            self.buffer[i] = self.buffer[i + 80];
            i += 1;
        }
        while i < 1920
            invariant
                1840 <= i <= 1920,
                forall|j: int| 0 <= j < 1840 ==> self.buffer@[j] == old(self).buffer@[j + 80],
                forall|j: int| 1840 <= j < i ==> self.buffer@[j] == ' ',
                self@ == (TerminalState { cells: self@.cells, ..old(self)@ }),
            decreases 1920 - i,
        {
            self.buffer[i] = ' ';
            i += 1;
        }
        assert(self@.cells =~= scrolled(old(self)@.cells));
    }

    /// Blanks the screen and homes the cursor.
    fn clear_screen(&mut self)
        ensures
            final(self)@ == (TerminalState {
                cells: cleared(old(self)@.cells, 0, 1920),
                row: 0,
                col: 0,
                ..old(self)@
            }),
    {
        self.clear_range(0, 1920);
        self.cursor.place(0, 0);
    }

    /// Blanks from the cursor to the end of the screen.
    fn clear_to_end(&mut self)
        ensures
            final(self)@ == (TerminalState {
                cells: cleared(old(self)@.cells, old(self)@.row * 80 + old(self)@.col, 1920),
                ..old(self)@
            }),
    {
        let here = self.cursor.row() * 80 + self.cursor.col();
        self.clear_range(here, 1920);
    }

    /// Blanks from the start of the screen to the cursor, inclusive.
    fn clear_to_start(&mut self)
        ensures
            final(self)@ == (TerminalState {
                cells: cleared(old(self)@.cells, 0, old(self)@.row * 80 + old(self)@.col + 1),
                ..old(self)@
            }),
    {
        let here = self.cursor.row() * 80 + self.cursor.col();
        self.clear_range(0, here + 1);
    }

    /// Blanks the row of the cursor.
    fn clear_line(&mut self)
        ensures
            final(self)@ == (TerminalState {
                cells: cleared(
                    old(self)@.cells,
                    old(self)@.row * 80,
                    old(self)@.row * 80 + 80,
                ),
                ..old(self)@
            }),
    {
        let start = self.cursor.row() * 80;
        self.clear_range(start, start + 80);
    }

    /// Blanks from the cursor to the end of its row.
    fn clear_line_to_end(&mut self)
        ensures
            final(self)@ == (TerminalState {
                cells: cleared(
                    old(self)@.cells,
                    old(self)@.row * 80 + old(self)@.col,
                    old(self)@.row * 80 + 80,
                ),
                ..old(self)@
            }),
    {
        let start = self.cursor.row() * 80;
        self.clear_range(start + self.cursor.col(), start + 80);
    }

    /// Blanks from the start of the cursor's row to the cursor, inclusive.
    fn clear_line_to_start(&mut self)
        ensures
            final(self)@ == (TerminalState {
                cells: cleared(
                    old(self)@.cells,
                    old(self)@.row * 80,
                    old(self)@.row * 80 + old(self)@.col + 1,
                ),
                ..old(self)@
            }),
    {
        let start = self.cursor.row() * 80;
        self.clear_range(start, start + self.cursor.col() + 1);
    }

    /// The rows of the screen as text, top to bottom.
    pub fn get_lines(&self) -> (lines: Vec<String>)
        ensures
            lines.len() == 24,
            forall|r: int| 0 <= r < 24 ==> (#[trigger] lines@[r])@ == row_text(self@, r),
    {
        let mut lines: Vec<String> = Vec::new();
        let mut r: usize = 0;
        while r < 24
            invariant
                r <= 24,
                lines.len() == r,
                forall|k: int| 0 <= k < r ==> (#[trigger] lines@[k])@ == row_text(self@, k),
            decreases 24 - r,
        {
            let mut line = String::new();
            let mut c: usize = 0;
            while c < 80
                invariant
                    r < 24,
                    c <= 80,
                    line@ == self.buffer@.subrange(r * 80, r * 80 + c),
                decreases 80 - c,
            {
                push_char(&mut line, self.buffer[r * 80 + c]);
                assert(line@ =~= self.buffer@.subrange(r * 80, r * 80 + c + 1));
                c += 1;
            }
            lines.push(line);
            r += 1;
        }
        lines
    }

    /// The row and the column of the cursor.
    pub fn cursor_position(&self) -> (p: (usize, usize))
        ensures
            p.0 == self@.row,
            p.1 == self@.col,
            on_screen(self@),
    {
        (self.cursor.row(), self.cursor.col())
    }

    /// Whether the cursor is shown.
    pub fn is_cursor_visible(&self) -> (v: bool)
        ensures
            v == self@.visible,
    {
        self.cursor_visible
    }
}

} // verus!
