//! Drawing a BGRA frame into an RGBA target of another size: scaled by
//! nearest neighbour, centred, on a black background.
use vstd::prelude::*;
use vstd::arithmetic::div_mod::{
    lemma_div_is_ordered, lemma_fundamental_div_mod, lemma_fundamental_div_mod_converse,
    lemma_multiply_divide_lt,
};
use vstd::arithmetic::mul::{lemma_mul_inequality, lemma_mul_strict_inequality};

verus! {

/// The sizes of a frame drawn into a target: the frame is `video_width` by
/// `video_height` pixels, the target `target_width` by `target_height`, and
/// the frame is shown at `scaled_width` by `scaled_height`.
#[derive(Debug, Clone, Copy, PartialEq, Eq, Structural)]
pub struct Letterbox {
    pub video_width: usize,
    pub video_height: usize,
    pub target_width: usize,
    pub target_height: usize,
    pub scaled_width: usize,
    pub scaled_height: usize,
}

/// The bytes of one row of the frame: four per pixel.
pub open spec fn row_bytes(g: Letterbox) -> int {
    g.video_width * 4
}

/// How far apart the frame's rows lie in `len` bytes of frame data.
pub open spec fn stride(g: Letterbox, len: int) -> int {
    len / (g.video_height as int)
}

/// Whether a frame of `len` bytes can be drawn: no size is zero, a row fits
/// the data, and the rows do not overlap.
pub open spec fn drawable(g: Letterbox, len: int) -> bool {
    &&& g.video_width > 0
    &&& g.video_height > 0
    &&& g.target_width > 0
    &&& g.target_height > 0
    &&& row_bytes(g) <= len
    &&& stride(g, len) >= row_bytes(g)
}

/// Whether the sizes are small enough for the byte positions to be
/// computed in a machine word.
pub open spec fn sizes_fit(g: Letterbox) -> bool {
    &&& g.video_width * 4 <= usize::MAX
    &&& g.scaled_height * g.video_height <= usize::MAX
    &&& g.scaled_width * g.video_width <= usize::MAX
    &&& g.target_height * g.target_width * 4 <= usize::MAX
}

/// The frame row shown at row `y` of the scaled picture.
pub open spec fn source_row(g: Letterbox, y: int) -> int {
    y * (g.video_height as int) / (g.scaled_height as int)
}

/// The frame column shown at column `x` of the scaled picture.
pub open spec fn source_column(g: Letterbox, x: int) -> int {
    x * (g.video_width as int) / (g.scaled_width as int)
}

/// Where the frame row shown at row `y` begins in the frame data.
pub open spec fn row_start(g: Letterbox, len: int, y: int) -> int {
    source_row(g, y) * stride(g, len)
}

/// Whether row `y` of the scaled picture is drawn: its frame row lies
/// within the frame data.
pub open spec fn row_shown(g: Letterbox, len: int, y: int) -> bool {
    row_start(g, len, y) + row_bytes(g) <= len
}

/// The margin left of the scaled picture.
pub open spec fn margin_x(g: Letterbox) -> int {
    (g.target_width - g.scaled_width) / 2
}

/// The margin above the scaled picture.
pub open spec fn margin_y(g: Letterbox) -> int {
    (g.target_height - g.scaled_height) / 2
}

/// Byte `k` of the target once the rows of the scaled picture above `rows`
/// and the first `cols` pixels of row `rows` are drawn, starting from
/// `before`: bytes after the last whole pixel keep their value; a pixel of
/// the scaled picture in a drawn row takes the frame's pixel with blue and
/// red swapped; every other pixel is opaque black.
pub open spec fn drawn_byte(
    frame: Seq<u8>,
    g: Letterbox,
    before: Seq<u8>,
    k: int,
    rows: int,
    cols: int,
) -> u8 {
    let p = k / 4;
    let c = k % 4;
    if 4 * p + 4 > before.len() {
        before[k]
    } else {
        let x = p % (g.target_width as int) - margin_x(g);
        let y = p / (g.target_width as int) - margin_y(g);
        if 0 <= x < g.scaled_width && 0 <= y < g.scaled_height && (y < rows || (y == rows && x
            < cols)) && row_shown(g, frame.len() as int, y) {
            if c == 3 {
                255u8
            } else {
                frame[row_start(g, frame.len() as int, y) + source_column(g, x) * 4 + 2 - c]
            }
        } else if c == 3 {
            255u8
        } else {
            0u8
        }
    }
}

/// Byte `k` of the target once the whole frame is drawn.
pub open spec fn letterboxed(frame: Seq<u8>, g: Letterbox, before: Seq<u8>, k: int) -> u8 {
    drawn_byte(frame, g, before, k, g.scaled_height as int, 0)
}

proof fn lemma_source_row_bounds(g: Letterbox, len: int, y: int)
    requires
        g.scaled_height > 0,
        g.video_height > 0,
        0 <= y < g.scaled_height,
        len >= 0,
    ensures
        0 <= source_row(g, y) < g.video_height,
        0 <= row_start(g, len, y) <= (g.video_height - 1) * stride(g, len),
        (g.video_height as int) * stride(g, len) <= len,
{
    let vh = g.video_height as int;
    let sh = g.scaled_height as int;
    lemma_mul_strict_inequality(y, sh, vh);
    assert(y * vh < vh * sh) by (nonlinear_arith)
        requires
            y * vh < sh * vh,
    ;
    lemma_multiply_divide_lt(y * vh, sh, vh);
    assert(0 <= y * vh) by (nonlinear_arith)
        requires
            0 <= y,
            0 < vh,
    ;
    lemma_div_is_ordered(0, y * vh, sh);
    let st = stride(g, len);
    assert(0 <= st) by (nonlinear_arith)
        requires
            st == len / vh,
            len >= 0,
            vh > 0,
    ;
    lemma_mul_inequality(source_row(g, y), vh - 1, st);
    assert(0 <= source_row(g, y) * st) by (nonlinear_arith)
        requires
            0 <= source_row(g, y),
            0 <= st,
    ;
    lemma_fundamental_div_mod(len, vh);
    assert(vh * st <= len) by (nonlinear_arith)
        requires
            len == vh * (len / vh) + len % vh,
            st == len / vh,
            0 <= len % vh,
    ;
}

proof fn lemma_rows_ordered(g: Letterbox, len: int, y1: int, y2: int)
    requires
        g.scaled_height > 0,
        0 <= y1 <= y2,
        len >= 0,
        g.video_height > 0,
    ensures
        row_start(g, len, y1) <= row_start(g, len, y2),
{
    let vh = g.video_height as int;
    let sh = g.scaled_height as int;
    lemma_mul_inequality(y1, y2, vh);
    lemma_div_is_ordered(y1 * vh, y2 * vh, sh);
    let st = stride(g, len);
    assert(0 <= st) by (nonlinear_arith)
        requires
            st == len / vh,
            len >= 0,
            vh > 0,
    ;
    lemma_mul_inequality(source_row(g, y1), source_row(g, y2), st);
}

proof fn lemma_source_column_bounds(g: Letterbox, x: int)
    requires
        g.scaled_width > 0,
        g.video_width > 0,
        0 <= x < g.scaled_width,
    ensures
        0 <= source_column(g, x) < g.video_width,
{
    let vw = g.video_width as int;
    let sw = g.scaled_width as int;
    lemma_mul_strict_inequality(x, sw, vw);
    assert(x * vw < sw * vw);
    lemma_multiply_divide_lt(x * vw, sw, vw);
    assert(0 <= x * vw) by (nonlinear_arith)
        requires
            0 <= x,
            0 < vw,
    ;
    lemma_div_is_ordered(0, x * vw, sw);
}

proof fn lemma_pixel_of(tw: int, row: int, col: int, k: int, c: int)
    requires
        tw > 0,
        row >= 0,
        0 <= col < tw,
        0 <= c < 4,
        k == (row * tw + col) * 4 + c,
    ensures
        k / 4 == row * tw + col,
        k % 4 == c,
        (k / 4) % tw == col,
        (k / 4) / tw == row,
{
    lemma_fundamental_div_mod_converse(k, 4, row * tw + col, c);
    lemma_fundamental_div_mod_converse(row * tw + col, tw, row, col);
}

proof fn lemma_other_pixel(tw: int, row: int, col: int, k: int)
    requires
        tw > 0,
        row >= 0,
        0 <= col < tw,
        k >= 0,
        k / 4 != row * tw + col,
    ensures
        (k / 4) % tw != col || (k / 4) / tw != row,
{
    lemma_fundamental_div_mod(k / 4, tw);
    assert(k / 4 >= 0);
    if (k / 4) % tw == col && (k / 4) / tw == row {
        assert(k / 4 == tw * row + col);
        assert(tw * row == row * tw) by (nonlinear_arith);
    }
}

/// Draws a BGRA frame into the RGBA target `out`: the target's whole
/// pixels turn opaque black, and the frame, scaled to `scaled_width` by
/// `scaled_height` by nearest neighbour, is drawn in its middle, as
/// [`letterboxed`] says; rows whose frame row lies past the frame data are
/// left black. A frame that cannot be drawn (see [`drawable`]) leaves the
/// target as it was.
pub fn draw_letterboxed(frame: &[u8], g: Letterbox, out: &mut Vec<u8>)
    requires
        sizes_fit(g),
        drawable(g, frame@.len() as int) && g.scaled_width > 0 && g.scaled_height > 0 ==> (
        g.scaled_width <= g.target_width && g.scaled_height <= g.target_height),
    ensures
        final(out)@.len() == old(out)@.len(),
        !drawable(g, frame@.len() as int) ==> final(out)@ == old(out)@,
        drawable(g, frame@.len() as int) ==> forall|k: int|
            0 <= k < old(out)@.len() ==> final(out)@[k] == letterboxed(frame@, g, old(out)@, k),
{
    let len = frame.len();
    let vw = g.video_width;
    let vh = g.video_height;
    let tw = g.target_width;
    let th = g.target_height;
    if vw == 0 || vh == 0 || tw == 0 || th == 0 {
        return;
    }
    let row_len = vw * 4;
    if row_len == 0 || len < row_len {
        return;
    }
    let src_stride = len / vh;
    if src_stride < row_len {
        return;
    }
    let ghost before = out@;
    let ghost lenf = len as int;
    let total = out.len();
    let chunks = total / 4;
    let mut i: usize = 0;
    while i < chunks
        invariant
            total == before.len(),
            chunks == before.len() / 4,
            i <= chunks,
            out@.len() == before.len(),
            forall|k: int|
                0 <= k < before.len() ==> #[trigger] out@[k] == (if k / 4 < i {
                    if k % 4 == 3 {
                        255u8
                    } else {
                        0u8
                    }
                } else {
                    before[k]
                }),
        decreases chunks - i,
    {
        proof {
            lemma_fundamental_div_mod(before.len() as int, 4);
            assert(4 * (i as int) + 4 <= before.len());
        }
        let at = 4 * i;
        out.set(at, 0);
        out.set(at + 1, 0);
        out.set(at + 2, 0);
        out.set(at + 3, 255);
        i = i + 1;
    }
    let sw = g.scaled_width;
    let sh = g.scaled_height;
    if sw == 0 || sh == 0 {
        proof {
            assert forall|k: int| 0 <= k < before.len() implies out@[k] == letterboxed(
                frame@,
                g,
                before,
                k,
            ) by {
                if 4 * (k / 4) + 4 <= before.len() {
                    assert(k / 4 < chunks);
                }
            }
        }
        return;
    }
    let ox = (tw - sw) / 2;
    let oy = (th - sh) / 2;
    proof {
        assert forall|k: int| 0 <= k < before.len() implies out@[k] == drawn_byte(
            frame@,
            g,
            before,
            k,
            0,
            0,
        ) by {
            if 4 * (k / 4) + 4 <= before.len() {
                assert(k / 4 < chunks);
            }
        }
    }
    let mut y: usize = 0;
    while y < sh
        invariant_except_break
            forall|k: int|
                0 <= k < before.len() ==> #[trigger] out@[k] == drawn_byte(
                    frame@,
                    g,
                    before,
                    k,
                    y as int,
                    0,
                ),
        invariant
            sizes_fit(g),
            drawable(g, lenf),
            lenf == frame@.len(),
            len == frame@.len(),
            out@.len() == before.len(),
            vw == g.video_width,
            vh == g.video_height,
            tw == g.target_width,
            th == g.target_height,
            sw == g.scaled_width,
            sh == g.scaled_height,
            0 < sw <= tw,
            0 < sh <= th,
            ox == margin_x(g),
            oy == margin_y(g),
            row_len == row_bytes(g),
            src_stride == stride(g, lenf),
            y <= sh,
        ensures
            forall|k: int|
                0 <= k < before.len() ==> #[trigger] out@[k] == letterboxed(frame@, g, before, k),
        decreases sh - y,
    {
        proof {
            lemma_source_row_bounds(g, lenf, y as int);
            assert((y as int) * (vh as int) <= (sh as int) * (vh as int)) by (nonlinear_arith)
                requires
                    y < sh,
                    vh > 0,
            ;
            assert(((vh as int) - 1) * (src_stride as int) + (src_stride as int) == (vh as int) * (
            src_stride as int)) by (nonlinear_arith);
        }
        let src_y = y * vh / sh;
        let src_row_start = src_y * src_stride;
        let src_row_end = src_row_start + row_len;
        if src_row_end > len {
            proof {
                assert forall|k: int| 0 <= k < before.len() implies #[trigger] out@[k] == letterboxed(
                    frame@,
                    g,
                    before,
                    k,
                ) by {
                    let p = k / 4;
                    let yk = p / (tw as int) - oy;
                    if 4 * p + 4 <= before.len() && yk >= y {
                        if 0 <= yk < sh {
                            lemma_rows_ordered(g, lenf, y as int, yk);
                        }
                    }
                }
            }
            break ;
        }
        proof {
            assert((y as int) + (oy as int) < th);
            assert(((y as int) + (oy as int)) * (tw as int) * 4 <= (th as int) * (tw as int) * 4) by (
            nonlinear_arith)
                requires
                    (y as int) + (oy as int) < th,
                    tw > 0,
            ;
        }
        let dst_row_start = (y + oy) * tw * 4;
        let mut x: usize = 0;
        while x < sw
            invariant
                sizes_fit(g),
                drawable(g, lenf),
                lenf == frame@.len(),
                len == frame@.len(),
                out@.len() == before.len(),
                vw == g.video_width,
                vh == g.video_height,
                tw == g.target_width,
                th == g.target_height,
                sw == g.scaled_width,
                sh == g.scaled_height,
                0 < sw <= tw,
                0 < sh <= th,
                ox == margin_x(g),
                oy == margin_y(g),
                row_len == row_bytes(g),
                src_stride == stride(g, lenf),
                y < sh,
                x <= sw,
                src_row_start == row_start(g, lenf, y as int),
                src_row_start + row_len <= len,
                row_shown(g, lenf, y as int),
                dst_row_start == ((y as int) + (oy as int)) * (tw as int) * 4,
                (y as int) + (oy as int) < th,
                forall|k: int|
                    0 <= k < before.len() ==> #[trigger] out@[k] == drawn_byte(
                        frame@,
                        g,
                        before,
                        k,
                        y as int,
                        x as int,
                    ),
            decreases sw - x,
        {
            proof {
                lemma_source_column_bounds(g, x as int);
                assert((x as int) * (vw as int) <= (sw as int) * (vw as int)) by (nonlinear_arith)
                    requires
                        x < sw,
                        vw > 0,
                ;
                assert((x as int) + (ox as int) < tw);
                assert(((y as int) + (oy as int)) * (tw as int) + (x as int) + (ox as int) < (th as int)
                    * (tw as int)) by (nonlinear_arith)
                    requires
                        (y as int) + (oy as int) < th,
                        (x as int) + (ox as int) < tw,
                ;
            }
            let src_x = x * vw / sw;
            let src_index = src_x * 4;
            let dst_index = dst_row_start + (x + ox) * 4;
            let ghost prev = out@;
            let ghost row = (y as int) + (oy as int);
            let ghost col = (x as int) + (ox as int);
            if src_index + 3 >= row_len || dst_index + 3 >= out.len() {
                proof {
                    assert(src_index + 3 < row_len);
                    assert forall|k: int| 0 <= k < before.len() implies #[trigger] out@[k]
                        == drawn_byte(frame@, g, before, k, y as int, (x + 1) as int) by {
                        if k / 4 == row * (tw as int) + col {
                            assert(4 * (k / 4) + 4 > before.len());
                        } else {
                            lemma_other_pixel(tw as int, row, col, k);
                        }
                    }
                }
            } else {
                let blue = frame[src_row_start + src_index];
                let green = frame[src_row_start + src_index + 1];
                let red = frame[src_row_start + src_index + 2];
                out.set(dst_index, red);
                out.set(dst_index + 1, green);
                out.set(dst_index + 2, blue);
                out.set(dst_index + 3, 255);
                proof {
                    assert forall|k: int| 0 <= k < before.len() implies #[trigger] out@[k]
                        == drawn_byte(frame@, g, before, k, y as int, (x + 1) as int) by {
                        if dst_index <= k < dst_index + 4 {
                            lemma_pixel_of(tw as int, row, col, k, k - dst_index);
                        } else {
                            assert(out@[k] == prev[k]);
                            if k / 4 == row * (tw as int) + col {
                                lemma_fundamental_div_mod(k, 4);
                            } else {
                                lemma_other_pixel(tw as int, row, col, k);
                            }
                        }
                    }
                }
            }
            x = x + 1;
        }
        y = y + 1;
    }
}

} // verus!
