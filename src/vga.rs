//! Text-mode screen contents: 25 rows of 80 character cells, written at the
//! bottom row and scrolled up on a new line. The cells are kept here; copying
//! them to the memory-mapped VGA buffer is the caller's part.
use vstd::prelude::*;
use vstd::string::StringSliceAdditionalSpecFns;

verus! {

pub const BUFFER_WIDTH: usize = 80;

pub const BUFFER_HEIGHT: usize = 25;

/// The sixteen text-mode colours.
#[derive(Clone, Copy, Debug, PartialEq, Eq, Structural)]
pub enum VgaColor {
    Black,
    Blue,
    Green,
    Cyan,
    Red,
    Magenta,
    Brown,
    LightGray,
    DarkGray,
    LightBlue,
    LightGreen,
    LightCyan,
    LightRed,
    Pink,
    Yellow,
    White,
}

/// The hardware number of a colour.
pub open spec fn color_number(c: VgaColor) -> u8 {
    match c {
        VgaColor::Black => 0,
        VgaColor::Blue => 1,
        VgaColor::Green => 2,
        VgaColor::Cyan => 3,
        VgaColor::Red => 4,
        VgaColor::Magenta => 5,
        VgaColor::Brown => 6,
        VgaColor::LightGray => 7,
        VgaColor::DarkGray => 8,
        VgaColor::LightBlue => 9,
        VgaColor::LightGreen => 10,
        VgaColor::LightCyan => 11,
        VgaColor::LightRed => 12,
        VgaColor::Pink => 13,
        VgaColor::Yellow => 14,
        VgaColor::White => 15,
    }
}

impl VgaColor {
    /// The hardware number of this colour.
    pub fn number(self) -> (r: u8)
        ensures
            r == color_number(self),
            r < 16,
    {
        match self {
            VgaColor::Black => 0,
            VgaColor::Blue => 1,
            VgaColor::Green => 2,
            VgaColor::Cyan => 3,
            VgaColor::Red => 4,
            VgaColor::Magenta => 5,
            VgaColor::Brown => 6,
            VgaColor::LightGray => 7,
            VgaColor::DarkGray => 8,
            VgaColor::LightBlue => 9,
            VgaColor::LightGreen => 10,
            VgaColor::LightCyan => 11,
            VgaColor::LightRed => 12,
            VgaColor::Pink => 13,
            VgaColor::Yellow => 14,
            VgaColor::White => 15,
        }
    }
}

/// Attribute byte: background colour in the high nibble, foreground in the
/// low one.
#[derive(Clone, Copy, Debug, PartialEq, Eq, Structural)]
pub struct ColorCode(pub u8);

impl ColorCode {
    pub fn new(foreground: VgaColor, background: VgaColor) -> (r: ColorCode)
        ensures
            r.0 == color_number(background) * 16 + color_number(foreground),
    {
        ColorCode(background.number() * 16 + foreground.number())
    }
}

/// One character cell.
#[derive(Clone, Copy, Debug, PartialEq, Eq, Structural)]
pub struct VgaChar {
    pub character: u8,
    pub color: ColorCode,
}

/// All cells of the screen, top row first.
pub struct VgaBuffer {
    pub chars: [[VgaChar; BUFFER_WIDTH]; BUFFER_HEIGHT],
}

/// The screen as rows of cells.
pub open spec fn rows(b: VgaBuffer) -> Seq<Seq<VgaChar>> {
    Seq::new(25, |r: int| b.chars@[r]@)
}

/// An empty cell in `color`.
pub open spec fn blank(color: ColorCode) -> VgaChar {
    VgaChar { character: 32, color }
}

/// A row of empty cells.
pub open spec fn blank_row(color: ColorCode) -> Seq<VgaChar> {
    Seq::new(80, |c: int| blank(color))
}

/// The screen after a new line: every row moves up by one and the bottom row
/// is cleared.
pub open spec fn scrolled(sc: Seq<Seq<VgaChar>>, color: ColorCode) -> Seq<Seq<VgaChar>> {
    Seq::new(25, |r: int| if r < 24 { sc[r + 1] } else { blank_row(color) })
}

/// The byte shown for `b`: printable ASCII and newline as they are, anything
/// else as the block character 0xFE.
pub open spec fn shown(b: u8) -> u8 {
    if (0x20 <= b && b <= 0x7e) || b == 10 {
        b
    } else {
        0xfe
    }
}

/// Screen and cursor column after writing byte `b`: a newline scrolls; any
/// other byte goes to the bottom row at the cursor, after scrolling first if
/// the row is full.
pub open spec fn write_byte_spec(sc: Seq<Seq<VgaChar>>, column: nat, color: ColorCode, b: u8) -> (
    Seq<Seq<VgaChar>>,
    nat,
) {
    if b == 10 {
        (scrolled(sc, color), 0)
    } else {
        let sc1 = if column >= 80 { scrolled(sc, color) } else { sc };
        let c1: nat = if column >= 80 { 0 } else { column };
        (sc1.update(24, sc1[24].update(c1 as int, VgaChar { character: b, color })), c1 + 1)
    }
}

/// Screen and cursor column after writing `bs` byte by byte, each as shown.
pub open spec fn write_bytes_spec(sc: Seq<Seq<VgaChar>>, column: nat, color: ColorCode, bs: Seq<u8>) -> (
    Seq<Seq<VgaChar>>,
    nat,
)
    decreases bs.len(),
{
    if bs.len() == 0 {
        (sc, column)
    } else {
        let prev = write_bytes_spec(sc, column, color, bs.drop_last());
        write_byte_spec(prev.0, prev.1, color, shown(bs.last()))
    }
}

/// Writes text at the bottom row of the screen.
pub struct VgaWriter {
    column: usize,
    color: ColorCode,
    pub buffer: VgaBuffer,
}

impl VgaWriter {
    /// The cursor column in the bottom row.
    pub closed spec fn column(&self) -> nat {
        self.column as nat
    }

    /// The colour new cells are written in.
    pub closed spec fn color(&self) -> ColorCode {
        self.color
    }

    /// The cells on screen, top row first.
    pub closed spec fn screen(&self) -> Seq<Seq<VgaChar>> {
        rows(self.buffer)
    }

    /// The cursor never goes past the end of the row.
    pub closed spec fn wf(&self) -> bool {
        self.column <= 80
    }

    /// A writer with a blank screen in the given colours.
    pub fn new(foreground: VgaColor, background: VgaColor) -> (r: VgaWriter)
        ensures
            r.wf(),
            r.column() == 0,
            r.color().0 == color_number(background) * 16 + color_number(foreground),
            r.screen() == Seq::new(25, |i: int| blank_row(r.color())),
    {
        let color = ColorCode::new(foreground, background);
        let empty = VgaChar { character: 0x20, color };
        let row = [empty; BUFFER_WIDTH];
        let w = VgaWriter { column: 0, color, buffer: VgaBuffer { chars: [row; BUFFER_HEIGHT] } };
        assert(rows(w.buffer) =~= Seq::new(25, |i: int| blank_row(color))) by {
            assert forall|i: int| 0 <= i < 25 implies #[trigger] rows(w.buffer)[i] =~= blank_row(
                color,
            ) by {}
        }
        w
    }

    /// Writes one byte as it is.
    pub fn write_byte(&mut self, byte: u8)
        requires
            old(self).wf(),
        ensures
            final(self).wf(),
            final(self).color() == old(self).color(),
            (final(self).screen(), final(self).column()) == write_byte_spec(
                old(self).screen(),
                old(self).column(),
                old(self).color(),
                byte,
            ),
    {
        if byte == 0x0a {
            self.new_line();
        } else {
            if self.column >= BUFFER_WIDTH {
                self.new_line();
            }
            let ghost sc1 = rows(self.buffer);
            let row = BUFFER_HEIGHT - 1;
            let col = self.column;
            self.buffer.chars[row][col] = VgaChar { character: byte, color: self.color };
            self.column = self.column + 1;
            assert(rows(self.buffer) =~= sc1.update(
                24,
                sc1[24].update(col as int, VgaChar { character: byte, color: self.color }),
            ));
        }
    }

    /// Writes a string; bytes that are neither printable ASCII nor a newline
    /// are shown as 0xFE.
    pub fn write_string(&mut self, s: &str)
        requires
            old(self).wf(),
        ensures
            final(self).wf(),
            final(self).color() == old(self).color(),
            (final(self).screen(), final(self).column()) == write_bytes_spec(
                old(self).screen(),
                old(self).column(),
                old(self).color(),
                s.spec_bytes(),
            ),
    {
        let bytes = s.as_bytes();
        let mut i: usize = 0;
        while i < bytes.len()
            invariant
                self.wf(),
                self.color() == old(self).color(),
                bytes@ == s.spec_bytes(),
                i <= bytes@.len(),
                (rows(self.buffer), self.column()) == write_bytes_spec(
                    rows(old(self).buffer),
                    old(self).column(),
                    old(self).color(),
                    bytes@.take(i as int),
                ),
            decreases bytes@.len() - i,
        {
            let byte = bytes[i];
            assert(bytes@.take(i as int + 1).drop_last() =~= bytes@.take(i as int));
            if (0x20 <= byte && byte <= 0x7e) || byte == 0x0a {
                self.write_byte(byte);
            } else {
                self.write_byte(0xfe);
            }
            i = i + 1;
        }
        assert(bytes@.take(bytes@.len() as int) =~= bytes@);
    }

    /// Empties row `row`.
    fn clear_row(&mut self, row: usize)
        requires
            row < BUFFER_HEIGHT,
        ensures
            final(self).column == old(self).column,
            final(self).color == old(self).color,
            rows(final(self).buffer) == rows(old(self).buffer).update(
                row as int,
                blank_row(old(self).color),
            ),
    {
        let empty = VgaChar { character: 0x20, color: self.color };
        let ghost before = rows(self.buffer);
        let fresh = [empty; BUFFER_WIDTH];
        assert(fresh@ =~= blank_row(self.color));
        self.buffer.chars[row] = fresh;
        assert(rows(self.buffer) =~= before.update(row as int, blank_row(self.color)));
    }

    /// Moves every row up by one, clears the bottom row and returns the
    /// cursor to the start of the row.
    fn new_line(&mut self)
        ensures
            final(self).column == 0,
            final(self).color == old(self).color,
            rows(final(self).buffer) == scrolled(rows(old(self).buffer), old(self).color),
    {
        let ghost before = rows(self.buffer);
        let mut row: usize = 1;
        while row < BUFFER_HEIGHT
            invariant
                1 <= row <= 25,
                self.color == old(self).color,
                forall|r: int| 0 <= r < row - 1 ==> #[trigger] rows(self.buffer)[r] == before[r + 1],
                forall|r: int| row - 1 <= r < 25 ==> #[trigger] rows(self.buffer)[r] == before[r],
            decreases 25 - row,
        {
            let ghost prev = rows(self.buffer);
            let moved = self.buffer.chars[row];
            self.buffer.chars[row - 1] = moved;
            assert(rows(self.buffer) =~= prev.update(row - 1, prev[row as int]));
            row = row + 1;
        }
        self.clear_row(BUFFER_HEIGHT - 1);
        self.column = 0;
        assert(rows(self.buffer) =~= scrolled(before, self.color));
    }
}

} // verus!
