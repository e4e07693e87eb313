//! Glyph bitmaps laid out for upload to a texture, whose rows must start at
//! multiples of 256 bytes.

use vstd::prelude::*;

verus! {

/// Rows of an uploaded bitmap start at multiples of this many bytes.
pub const ROW_ALIGNMENT: u32 = 256;

/// The row pitch for rows of `width` bytes: `width` rounded up to the next
/// multiple of `ROW_ALIGNMENT`.
pub open spec fn spec_row_pitch(width: int) -> int {
    ((width + 255) / 256) * 256
}

/// The byte at column `x` of row `y` of the padded bitmap: the bitmap's
/// byte within its width, zero in the padding.
pub open spec fn padded_byte(bitmap: Seq<u8>, width: int, y: int, x: int) -> u8 {
    if x < width {
        bitmap[y * width + x]
    } else {
        0
    }
}

/// Lays out a bitmap of `height` rows of `width` bytes with every row
/// padded with zeros to the row pitch, and returns the bytes with the
/// pitch.
pub fn pad_glyph(bitmap: &[u8], width: u32, height: u32) -> (padded: (Vec<u8>, u32))
    requires
        bitmap@.len() >= width * height,
        spec_row_pitch(width as int) <= u32::MAX,
        spec_row_pitch(width as int) * height <= u32::MAX,
    ensures
        padded.1 == spec_row_pitch(width as int),
        padded.1 >= width,
        padded.1 % ROW_ALIGNMENT == 0,
        padded.0@.len() == padded.1 * height,
        forall|y: int, x: int|
            0 <= y < height && 0 <= x < padded.1 ==> #[trigger] padded.0@[y * padded.1 + x]
                == padded_byte(bitmap@, width as int, y, x),
{
    let pitch: u32 = ((width as u64 + 255) / 256 * 256) as u32;
    let size: usize = bitmap.len();
    let mut out: Vec<u8> = Vec::new();
    let mut y: u32 = 0;
    while y < height
        invariant
            y <= height,
            pitch == spec_row_pitch(width as int),
            pitch >= width,
            bitmap@.len() >= width * height,
            size == bitmap@.len(),
            pitch * height <= u32::MAX,
            out@.len() == pitch * y,
            forall|r: int, x: int|
                0 <= r < y && 0 <= x < pitch ==> #[trigger] out@[r * pitch + x] == padded_byte(
                    bitmap@,
                    width as int,
                    r,
                    x,
                ),
        decreases height - y,
    {
        let ghost rows = out@;
        let mut x: u32 = 0;
        while x < pitch
            invariant
                x <= pitch,
                y < height,
                pitch >= width,
                bitmap@.len() >= width * height,
                size == bitmap@.len(),
                pitch * height <= u32::MAX,
                out@.len() == pitch * y + x,
                rows.len() == pitch * y,
                out@.take(rows.len() as int) == rows,
                forall|c: int|
                    0 <= c < x ==> #[trigger] out@[pitch * y + c] == padded_byte(
                        bitmap@,
                        width as int,
                        y as int,
                        c,
                    ),
            decreases pitch - x,
        {
            let ghost prev = out@;
            assert(pitch * y + x < pitch * height) by (nonlinear_arith)
                requires
                    y < height,
                    x < pitch,
            ;
            if x < width {
                assert(y * width + x < width * height && 0 <= y * width <= width * height) by (nonlinear_arith)
                    requires
                        0 <= y < height,
                        0 <= x < width,
                ;
                assert((y as usize) * (width as usize) == y * width) by (nonlinear_arith)
                    requires
                        0 <= y * width <= size,
                ;
                let at: usize = (y as usize) * (width as usize) + (x as usize);
                out.push(bitmap[at]);
            } else {
                out.push(0);
            }
            assert(out@.take(rows.len() as int) =~= prev.take(rows.len() as int));
            assert forall|c: int| 0 <= c < x + 1 implies #[trigger] out@[pitch * y + c]
                == padded_byte(bitmap@, width as int, y as int, c) by {
                if c < x {
                    assert(out@[pitch * y + c] == prev[pitch * y + c]);
                }
            }
            x += 1;
        }
        assert forall|r: int, c: int| 0 <= r < y + 1 && 0 <= c < pitch implies #[trigger] out@[r
            * pitch + c] == padded_byte(bitmap@, width as int, r, c) by {
            if r < y {
                assert(r * pitch + c < pitch * y) by (nonlinear_arith)
                    requires
                        0 <= r < y,
                        0 <= c < pitch,
                ;
                assert(out@[r * pitch + c] == out@.take(rows.len() as int)[r * pitch + c]);
            } else {
                assert(r * pitch + c == pitch * y + c) by (nonlinear_arith)
                    requires
                        r == y,
                ;
            }
        }
        assert(pitch * y + pitch == pitch * (y + 1)) by (nonlinear_arith);
        y += 1;
    }
    (out, pitch)
}

} // verus!
