//! PSF2 bitmap font: glyph lookup and the pixels a glyph lights.
use vstd::prelude::*;
use crate::console::{GLYPH_W, GLYPH_H};

verus! {

/// Little-endian `u32` at byte `i` of `s`.
pub open spec fn le_u32(s: Seq<u8>, i: int) -> int {
    s[i] + s[i + 1] * 256 + s[i + 2] * 65536 + s[i + 3] * 16777216
}

/// `u32::from_le_bytes` of the four bytes at `i`.
fn read_le_u32(s: &[u8], i: usize) -> (r: u32)
    requires
        i + 4 <= s@.len(),
    ensures
        r == le_u32(s@, i as int),
{
    (s[i] as u32) + (s[i + 1] as u32) * 256 + (s[i + 2] as u32) * 65536 + (s[i + 3] as u32) * 16777216
}

/// Header size of a PSF2 font.
pub open spec fn psf_header_size(font: Seq<u8>) -> int {
    le_u32(font, 8)
}

/// Bytes per glyph of a PSF2 font.
pub open spec fn psf_glyph_bytes(font: Seq<u8>) -> int {
    le_u32(font, 20)
}

/// Offset of the glyph of `c`.
pub open spec fn glyph_offset(font: Seq<u8>, c: u8) -> int {
    psf_header_size(font) + c * psf_glyph_bytes(font)
}

/// The font holds a whole glyph for `c`.
pub open spec fn glyph_in_font(font: Seq<u8>, c: u8) -> bool {
    font.len() >= 24 && glyph_offset(font, c) + psf_glyph_bytes(font) <= font.len()
}

/// The bitmap of the glyph of `c`: `bytes_per_glyph` bytes after the header.
pub fn glyph(font: &[u8], c: u8) -> (r: &[u8])
    requires
        glyph_in_font(font@, c),
    ensures
        r@ == font@.subrange(glyph_offset(font@, c), glyph_offset(font@, c) + psf_glyph_bytes(font@)),
{
    let n = font.len();
    let header_size = read_le_u32(font, 8) as usize;
    let bytes_per_glyph = read_le_u32(font, 20) as usize;
    proof {
        assert(0 <= c * psf_glyph_bytes(font@) <= glyph_offset(font@, c)) by (nonlinear_arith)
            requires
                psf_header_size(font@) >= 0,
                psf_glyph_bytes(font@) >= 0,
                c >= 0,
                glyph_offset(font@, c) == psf_header_size(font@) + c * psf_glyph_bytes(font@),
        ;
    }
    let offset = header_size + (c as usize) * bytes_per_glyph;
    &font[offset..offset + bytes_per_glyph]
}

/// Bit `col` (from the left) of glyph row `byte` is lit.
pub open spec fn lit(byte: u8, col: u32) -> bool {
    byte & (0x80u8 >> (col as u8)) != 0
}

/// Framebuffer index (in 32-bit pixels) of pixel `(px, py)`.
pub open spec fn pixel_index(px: int, py: int, pitch: u32) -> int {
    py * (pitch / 4) + px
}

/// The pixels that drawing `g` at `(x, y)` lights.
pub open spec fn glyph_lights(g: Seq<u8>, x: u32, y: u32, pitch: u32, idx: int) -> bool {
    exists|row: u32, col: u32|
        row < GLYPH_H && col < GLYPH_W && lit(g[row as int], col) && idx == #[trigger] pixel_index(
            x + col,
            y + row,
            pitch,
        )
}

/// Framebuffer indices of the pixels that the glyph `g` lights when drawn
/// with its top left corner at `(x, y)`.
pub fn glyph_pixels(g: &[u8], x: u32, y: u32, pitch: u32) -> (r: Vec<u32>)
    requires
        g@.len() >= GLYPH_H,
        y + GLYPH_H <= u32::MAX,
        (y + GLYPH_H) * (pitch / 4) + x + GLYPH_W <= u32::MAX,
    ensures
        forall|v: u32| #[trigger] r@.contains(v) <==> glyph_lights(g@, x, y, pitch, v as int),
{
    let mut r: Vec<u32> = Vec::new();
    let mut row: u32 = 0;
    while row < GLYPH_H
        invariant
            row <= GLYPH_H,
            g@.len() >= GLYPH_H,
            y + GLYPH_H <= u32::MAX,
            (y + GLYPH_H) * (pitch / 4) + x + GLYPH_W <= u32::MAX,
            forall|v: u32|
                #[trigger] r@.contains(v) <==> exists|rw: u32, col: u32|
                    rw < row && col < GLYPH_W && lit(g@[rw as int], col) && v == #[trigger] pixel_index(
                        x + col,
                        y + rw,
                        pitch,
                    ),
        decreases GLYPH_H - row,
    {
        let byte = g[row as usize];
        let mut col: u32 = 0;
        while col < GLYPH_W
            invariant
                row < GLYPH_H,
                col <= GLYPH_W,
                g@.len() >= GLYPH_H,
                y + GLYPH_H <= u32::MAX,
                byte == g@[row as int],
                (y + GLYPH_H) * (pitch / 4) + x + GLYPH_W <= u32::MAX,
                forall|v: u32|
                    #[trigger] r@.contains(v) <==> exists|rw: u32, c: u32|
                        ((rw < row && c < GLYPH_W) || (rw == row && c < col)) && lit(g@[rw as int], c)
                            && v == #[trigger] pixel_index(x + c, y + rw, pitch),
            decreases GLYPH_W - col,
        {
            let px = x + col;
            let py = y + row;
            proof {
                assert(py * (pitch / 4) <= (y + GLYPH_H) * (pitch / 4)) by (nonlinear_arith)
                    requires
                        py < y + GLYPH_H,
                ;
            }
            let ghost old_r = r@;
            if byte & (0x80u8 >> (col as u8)) != 0 {
                r.push(py * (pitch / 4) + px);
            }
            proof {
                assert forall|v: u32|
                    #[trigger] r@.contains(v) <==> exists|rw: u32, c: u32|
                        ((rw < row && c < GLYPH_W) || (rw == row && c < col + 1)) && lit(g@[rw as int], c)
                            && v == #[trigger] pixel_index(x + c, y + rw, pitch) by {
                    if r@.contains(v) && !old_r.contains(v) {
                        let j = choose|j: int| 0 <= j < r@.len() && r@[j] == v;
                        if j < old_r.len() {
                            assert(old_r[j] == v);
                        }
                        assert(v == pixel_index(x + col, y + row, pitch));
                    }
                    if exists|rw: u32, c: u32|
                        ((rw < row && c < GLYPH_W) || (rw == row && c < col + 1)) && lit(g@[rw as int], c)
                            && v == #[trigger] pixel_index(x + c, y + rw, pitch) {
                        let (rw, c) = choose|rw: u32, c: u32|
                            ((rw < row && c < GLYPH_W) || (rw == row && c < col + 1)) && lit(g@[rw as int], c)
                                && v == #[trigger] pixel_index(x + c, y + rw, pitch);
                        if rw == row && c == col {
                            assert(r@[r@.len() - 1] == v);
                        } else {
                            assert(old_r.contains(v));
                            let j = choose|j: int| 0 <= j < old_r.len() && old_r[j] == v;
                            assert(r@[j] == v);
                        }
                    }
                    if old_r.contains(v) {
                        let j = choose|j: int| 0 <= j < old_r.len() && old_r[j] == v;
                        assert(r@[j] == v);
                    }
                }
            }
            col += 1;
        }
        row += 1;
    }
    r
}

} // verus!
