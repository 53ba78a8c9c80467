//! Text console on a linear framebuffer: cursor handling and the drawing
//! operations it asks for.  Drawing the glyphs themselves happens where the
//! framebuffer is.
use vstd::prelude::*;
use crate::fmt::{dec_digits, hex_digits, dec_text, hex_text};
use vstd::string::StringSliceAdditionalSpecFns;

verus! {

/// Width of a glyph in pixels.
pub const GLYPH_W: u32 = 8;

/// Colour of an empty cell: black.
pub const BACKGROUND: u32 = 0x000000;

/// Height of a glyph in pixels.
pub const GLYPH_H: u32 = 16;

/// What the console asks the framebuffer to do.
#[derive(Clone, Copy, PartialEq, Eq, Structural, Debug)]
pub enum ConsoleOp {
    /// Draw the glyph of `ch` with its top left corner at pixel `(x, y)`.
    Glyph { ch: u8, x: u32, y: u32 },
    /// Clear the whole screen: set the first `words` 32-bit pixels of the
    /// framebuffer (`pitch / 4` pixels a line, `height` lines) to
    /// `BACKGROUND`.
    Clear { words: u64 },
    /// Paint the character cell with its top left corner at `(x, y)` in
    /// the background colour.
    Blank { x: u32, y: u32 },
}

/// Cursor state of a text console over a `width` x `height` framebuffer
/// whose lines are `pitch` bytes long.
#[derive(Clone, Copy)]
pub struct Console {
    pub pitch: u32,
    pub width: u32,
    pub height: u32,
    /// Current column, in characters.
    pub cx: u32,
    /// Current row, in characters.
    pub cy: u32,
}

/// The operation that clears the screen of `c`: every pixel of its
/// `height` lines of `pitch / 4` pixels.
pub open spec fn clear_op(c: Console) -> ConsoleOp {
    ConsoleOp::Clear { words: ((c.pitch / 4) as u64 * c.height as u64) as u64 }
}

/// The cursor after the column advanced past the right edge or a newline.
pub open spec fn next_line(c: Console) -> Console {
    Console { cx: 0, cy: (c.cy + 1) as u32, ..c }
}

/// Writing one byte: a newline moves to the next line; any other byte is
/// drawn at the cursor, which moves right and wraps at the right edge.  When
/// the cursor leaves the last row the screen is cleared and the cursor goes
/// home.
pub open spec fn spec_write_byte(c: Console, b: u8) -> (Console, Seq<ConsoleOp>) {
    let max_rows = c.height / GLYPH_H;
    let (c1, ops) = if b == 10 {
        (next_line(c), Seq::<ConsoleOp>::empty())
    } else {
        let ops = seq![ConsoleOp::Glyph { ch: b, x: (c.cx * GLYPH_W) as u32, y: (c.cy * GLYPH_H) as u32 }];
        let moved = Console { cx: (c.cx + 1) as u32, ..c };
        if moved.cx * GLYPH_W >= c.width {
            (next_line(moved), ops)
        } else {
            (moved, ops)
        }
    };
    if c1.cy >= max_rows {
        (Console { cx: 0, cy: 0, ..c1 }, ops.push(clear_op(c)))
    } else {
        (c1, ops)
    }
}

/// Writing a string of bytes, one after the other.
pub open spec fn spec_write_bytes(c: Console, s: Seq<u8>) -> (Console, Seq<ConsoleOp>)
    decreases s.len(),
{
    if s.len() == 0 {
        (c, Seq::empty())
    } else {
        let (c1, o1) = spec_write_bytes(c, s.drop_last());
        let (c2, o2) = spec_write_byte(c1, s.last());
        (c2, o1 + o2)
    }
}

/// Taking back the character before the cursor on its row: the cursor
/// moves left and that cell is blanked; at the start of a row nothing
/// happens.
pub open spec fn spec_backspace(c: Console) -> (Console, Option<ConsoleOp>) {
    if c.cx == 0 {
        (c, None)
    } else {
        (
            Console { cx: (c.cx - 1) as u32, ..c },
            Some(ConsoleOp::Blank { x: ((c.cx - 1) * GLYPH_W) as u32, y: (c.cy * GLYPH_H) as u32 }),
        )
    }
}

/// Law: a character written where it does not reach the end of the row,
/// then taken back, leaves the cursor where it was, and the cell blanked is
/// the cell the glyph was drawn in.
pub proof fn law_backspace_undoes_write(c: Console, b: u8)
    requires
        c.wf(),
        b != 10,
        (c.cx + 1) * GLYPH_W < c.width,
        c.cy < c.height / GLYPH_H,
    ensures
        ({
            let (c1, ops) = spec_write_byte(c, b);
            let (c2, op) = spec_backspace(c1);
            &&& c2 == c
            &&& ops == seq![ConsoleOp::Glyph { ch: b, x: (c.cx * GLYPH_W) as u32, y: (c.cy * GLYPH_H) as u32 }]
            &&& op == Some(ConsoleOp::Blank { x: (c.cx * GLYPH_W) as u32, y: (c.cy * GLYPH_H) as u32 })
        }),
{
}

impl Console {
    /// The cursor lies on the screen (or at home on a screen too small for
    /// one character).
    pub open spec fn wf(self) -> bool {
        &&& self.cx == 0 || self.cx * GLYPH_W < self.width
        &&& self.cy == 0 || self.cy < self.height / GLYPH_H
    }

    /// A console with the cursor at home.
    pub fn new(pitch: u32, width: u32, height: u32) -> (r: Self)
        ensures
            r.wf(),
            r == (Console { pitch, width, height, cx: 0, cy: 0 }),
    {
        Console { pitch, width, height, cx: 0, cy: 0 }
    }

    /// Write one byte.
    pub fn write_byte(&mut self, b: u8) -> (r: Vec<ConsoleOp>)
        requires
            old(self).wf(),
        ensures
            final(self).wf(),
            (*final(self), r@) == spec_write_byte(*old(self), b),
    {
        let max_rows = self.height / GLYPH_H;
        let mut ops: Vec<ConsoleOp> = Vec::new();
        if b == 10 {
            self.cx = 0;
            self.cy = self.cy + 1;
        } else {
            ops.push(ConsoleOp::Glyph { ch: b, x: self.cx * GLYPH_W, y: self.cy * GLYPH_H });
            self.cx = self.cx + 1;
            if self.cx as u64 * GLYPH_W as u64 >= self.width as u64 {
                self.cx = 0;
                self.cy = self.cy + 1;
            }
        }
        if self.cy >= max_rows {
            ops.push(self.clear());
        }
        ops
    }

    /// Take back the character before the cursor, on its row: the cursor
    /// moves left and the cell is blanked.  At the start of a row nothing
    /// happens.
    pub fn backspace(&mut self) -> (r: Option<ConsoleOp>)
        requires
            old(self).wf(),
        ensures
            final(self).wf(),
            (*final(self), r) == spec_backspace(*old(self)),
            old(self).cx == 0 ==> r is None && *final(self) == *old(self),
            old(self).cx > 0 ==> *final(self) == (Console { cx: (old(self).cx - 1) as u32, ..*old(self) }) && r == Some(
                ConsoleOp::Blank { x: ((old(self).cx - 1) * GLYPH_W) as u32, y: (old(self).cy * GLYPH_H) as u32 },
            ),
    {
        if self.cx == 0 {
            return None;
        }
        self.cx = self.cx - 1;
        Some(ConsoleOp::Blank { x: self.cx * GLYPH_W, y: self.cy * GLYPH_H })
    }

    /// Put the cursor at home and ask for a clear screen.
    pub fn clear(&mut self) -> (r: ConsoleOp)
        ensures
            r == clear_op(*old(self)),
            *final(self) == (Console { cx: 0, cy: 0, ..*old(self) }),
    {
        self.cx = 0;
        self.cy = 0;
        proof {
            assert((self.pitch / 4) as u64 * self.height as u64 <= 0xFFFF_FFFF * 0xFFFF_FFFF) by (nonlinear_arith)
                requires
                    self.pitch / 4 <= 0xFFFF_FFFF,
                    self.height <= 0xFFFF_FFFF,
            ;
        }
        ConsoleOp::Clear { words: (self.pitch / 4) as u64 * self.height as u64 }
    }

    /// Write a string of bytes.
    pub fn write_bytes(&mut self, s: &[u8]) -> (r: Vec<ConsoleOp>)
        requires
            old(self).wf(),
        ensures
            final(self).wf(),
            (*final(self), r@) == spec_write_bytes(*old(self), s@),
    {
        let mut ops: Vec<ConsoleOp> = Vec::new();
        let mut i: usize = 0;
        while i < s.len()
            invariant
                self.wf(),
                i <= s@.len(),
                (*self, ops@) == spec_write_bytes(*old(self), s@.subrange(0, i as int)),
            decreases s@.len() - i,
        {
            let mut o = self.write_byte(s[i]);
            ops.append(&mut o);
            proof {
                let t = s@.subrange(0, i + 1);
                assert(t.drop_last() =~= s@.subrange(0, i as int));
                assert(t.last() == s@[i as int]);
            }
            i += 1;
        }
        assert(s@.subrange(0, s@.len() as int) =~= s@);
        ops
    }

    /// Write a string.
    pub fn write_str(&mut self, s: &str) -> (r: Vec<ConsoleOp>)
        requires
            old(self).wf(),
        ensures
            final(self).wf(),
            (*final(self), r@) == spec_write_bytes(*old(self), s.spec_bytes()),
    {
        self.write_bytes(s.as_bytes())
    }

    /// Write the 16 hex digits of `val`.
    pub fn write_hex(&mut self, val: u64) -> (r: Vec<ConsoleOp>)
        requires
            old(self).wf(),
        ensures
            final(self).wf(),
            (*final(self), r@) == spec_write_bytes(*old(self), hex_digits(val)),
    {
        let digits = hex_text(val);
        self.write_bytes(digits.as_slice())
    }

    /// Write `val` in decimal.
    pub fn write_dec(&mut self, val: u64) -> (r: Vec<ConsoleOp>)
        requires
            old(self).wf(),
        ensures
            final(self).wf(),
            (*final(self), r@) == spec_write_bytes(*old(self), dec_digits(val as nat)),
    {
        let digits = dec_text(val);
        self.write_bytes(digits.as_slice())
    }
}

/// Writing `b` at `c` takes the cursor off its row: a newline, or a
/// character in the last column.
pub open spec fn leaves_row(c: Console, b: u8) -> bool {
    b == 10 || (c.cx + 1) * GLYPH_W >= c.width
}

/// Law: when a byte takes the cursor off the last row (a newline there,
/// or a character in its last column), the screen is cleared and the
/// cursor goes home: the operations end with the clear of the whole
/// screen.  Any other byte asks for no clear at all and the cursor stays
/// on the screen's rows.  (On a screen too short for one row of text
/// every byte clears it.)
pub proof fn law_clear_on_overflow(c: Console, b: u8)
    requires
        c.wf(),
        c.cy < c.height / GLYPH_H,
    ensures
        leaves_row(c, b) && c.cy + 1 >= c.height / GLYPH_H ==> spec_write_byte(c, b).1.len() > 0
            && spec_write_byte(c, b).1.last() == clear_op(c),
        leaves_row(c, b) && c.cy + 1 >= c.height / GLYPH_H ==> spec_write_byte(c, b).0.cx == 0
            && spec_write_byte(c, b).0.cy == 0,
        !(leaves_row(c, b) && c.cy + 1 >= c.height / GLYPH_H) ==> forall|k: int|
            0 <= k < spec_write_byte(c, b).1.len() ==> !(#[trigger] spec_write_byte(c, b).1[k] is Clear),
        !(leaves_row(c, b) && c.cy + 1 >= c.height / GLYPH_H) ==> spec_write_byte(c, b).0.cy < c.height / GLYPH_H,
{
    let max_rows = c.height / GLYPH_H;
    let over = leaves_row(c, b) && c.cy + 1 >= max_rows;
    if b == 10 {
        let c1 = next_line(c);
        assert(c1.cy == c.cy + 1);
        if !over {
            assert(spec_write_byte(c, b) == (c1, Seq::<ConsoleOp>::empty()));
        }
    } else {
        let g = seq![ConsoleOp::Glyph { ch: b, x: (c.cx * GLYPH_W) as u32, y: (c.cy * GLYPH_H) as u32 }];
        let moved = Console { cx: (c.cx + 1) as u32, ..c };
        assert(c.cx + 1 <= u32::MAX);
        assert(moved.cx == c.cx + 1);
        if moved.cx * GLYPH_W >= c.width {
            let c1 = next_line(moved);
            assert(c1.cy == c.cy + 1);
            if !over {
                assert(spec_write_byte(c, b) == (c1, g));
            }
        } else {
            assert(!over);
            assert(moved.cy < max_rows);
            assert(spec_write_byte(c, b).0 == moved);
            assert(spec_write_byte(c, b).1 =~= g);
        }
        if !over {
            assert forall|k: int| 0 <= k < g.len() implies !(#[trigger] g[k] is Clear) by {
                assert(k == 0);
            }
        }
    }
}

/// Law: writing `a` then `b` is writing `a + b`: the console ends in the
/// same state and the operations are those of `a` followed by those of
/// `b`.  (Writing nothing changes nothing, by the definition.)
pub proof fn law_write_bytes_concat(c: Console, a: Seq<u8>, b: Seq<u8>)
    ensures
        spec_write_bytes(c, a + b) == ({
            let (c1, o1) = spec_write_bytes(c, a);
            let (c2, o2) = spec_write_bytes(c1, b);
            (c2, o1 + o2)
        }),
    decreases b.len(),
{
    let (c1, o1) = spec_write_bytes(c, a);
    if b.len() == 0 {
        assert(a + b =~= a);
        assert(o1 + Seq::<ConsoleOp>::empty() =~= o1);
    } else {
        let bd = b.drop_last();
        law_write_bytes_concat(c, a, bd);
        assert((a + b).drop_last() =~= a + bd);
        assert((a + b).last() == b.last());
        let (y, oy) = spec_write_bytes(c1, bd);
        let (z, oz) = spec_write_byte(y, b.last());
        assert(spec_write_bytes(c1, b) == (z, oy + oz));
        assert(spec_write_bytes(c, a + b) == (z, (o1 + oy) + oz));
        assert((o1 + oy) + oz =~= o1 + (oy + oz));
    }
}

} // verus!
