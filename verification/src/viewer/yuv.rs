//! Pictures: from luma and chroma planes to red, green, blue and alpha.
//!
//! The planes are in 4:2:0 with BT.601 limited range, as phones encode them. Sampling takes
//! the nearest pixel, so that conversion and scaling are one step.
use vstd::arithmetic::div_mod::{lemma_div_is_ordered, lemma_multiply_divide_lt};
use vstd::prelude::*;

verus! {

/// `x` kept between 0 and 255.
pub open spec fn clamped(x: int) -> int {
    if x < 0 {
        0
    } else if x > 255 {
        255
    } else {
        x
    }
}

/// The colour of a pixel: red, green, blue.
pub open spec fn rgb(y: u8, u: u8, v: u8) -> (int, int, int) {
    let c = y - 16;
    let d = u - 128;
    let e = v - 128;
    (
        clamped((298 * c + 409 * e + 128) / 256),
        clamped((298 * c - 100 * d - 208 * e + 128) / 256),
        clamped((298 * c + 516 * d + 128) / 256),
    )
}

/// `value` kept between 0 and 255.
pub fn clamp_u8(value: i32) -> (r: u8)
    ensures
        r == clamped(value as int),
{
    if value < 0 {
        0
    } else if value > 255 {
        255
    } else {
        value as u8
    }
}

/// A 256th of `x`, rounded down.
fn shift8(x: i32) -> (r: i32)
    ensures
        r == x as int / 256,
{
    let r: i32 = x >> 8;
    assert(256 * (x >> 8) <= x < 256 * (x >> 8) + 256) by (bit_vector);
    r
}

/// The colour of a pixel with luma `y` and chroma `u` and `v`.
pub fn yuv_to_rgb(y: u8, u: u8, v: u8) -> (r: (u8, u8, u8))
    ensures
        (r.0 as int, r.1 as int, r.2 as int) == rgb(y, u, v),
{
    let c: i32 = y as i32 - 16;
    let d: i32 = u as i32 - 128;
    let e: i32 = v as i32 - 128;
    let r: i32 = shift8(298 * c + 409 * e + 128);
    let g: i32 = shift8(298 * c - 100 * d - 208 * e + 128);
    let b: i32 = shift8(298 * c + 516 * d + 128);
    (clamp_u8(r), clamp_u8(g), clamp_u8(b))
}

/// The line or column of `src` that is sampled for place `at` of `dst`.
pub open spec fn sampled(at: int, src: int, dst: int) -> int {
    at * src / dst
}

/// The place in the luma plane that is sampled for the pixel at (`col`, `row`).
pub open spec fn luma_at(row: int, col: int, dst: (int, int), src: (int, int)) -> int {
    sampled(row, src.1, dst.1) * src.0 + sampled(col, src.0, dst.0)
}

/// The place in the chroma planes that is sampled for the pixel at (`col`, `row`).
pub open spec fn chroma_at(row: int, col: int, dst: (int, int), src: (int, int)) -> int {
    sampled(row, src.1, dst.1) / 2 * (src.0 / 2) + sampled(col, src.0, dst.0) / 2
}

/// Whether neither picture is empty.
pub open spec fn drawn(dst: (int, int), src: (int, int)) -> bool {
    dst.0 > 0 && dst.1 > 0 && src.0 > 0 && src.1 > 0
}

/// Whether planes of these lengths cover what is sampled, up to the last pixel.
pub open spec fn covered(y: nat, u: nat, v: nat, dst: (int, int), src: (int, int)) -> bool {
    &&& luma_at(dst.1 - 1, dst.0 - 1, dst, src) < y
    &&& chroma_at(dst.1 - 1, dst.0 - 1, dst, src) < u
    &&& chroma_at(dst.1 - 1, dst.0 - 1, dst, src) < v
}

/// Byte `i` of the picture of size `dst`.
pub open spec fn byte_at(
    i: int,
    y: Seq<u8>,
    u: Seq<u8>,
    v: Seq<u8>,
    dst: (int, int),
    src: (int, int),
) -> int {
    let row = i / 4 / dst.0;
    let col = i / 4 % dst.0;
    let l = luma_at(row, col, dst, src);
    let k = chroma_at(row, col, dst, src);
    let c = rgb(y[l], u[k], v[k]);
    if i % 4 == 0 {
        c.0
    } else if i % 4 == 1 {
        c.1
    } else if i % 4 == 2 {
        c.2
    } else {
        255
    }
}

/// The sampled place grows with the place, and stays inside the picture.
proof fn lemma_sampled(at: int, last: int, src: int, dst: int)
    requires
        0 <= at <= last < dst,
        0 < src,
    ensures
        0 <= sampled(at, src, dst) <= sampled(last, src, dst) < src,
        0 <= at * src <= last * src,
{
    assert(0 <= at * src <= last * src) by (nonlinear_arith)
        requires
            0 <= at <= last,
            0 < src,
    ;
    assert(last * src < src * dst) by (nonlinear_arith)
        requires
            last < dst,
            0 < src,
    ;
    lemma_div_is_ordered(0, at * src, dst);
    lemma_div_is_ordered(at * src, last * src, dst);
    assert(src * dst == dst * src) by (nonlinear_arith);
    lemma_multiply_divide_lt(last * src, dst, src);
    assert(0int / dst == 0) by (nonlinear_arith)
        requires
            dst > 0,
    ;
}

/// What is sampled lies no further than what is sampled for the last pixel.
proof fn lemma_in_planes(row: int, col: int, dst: (int, int), src: (int, int))
    requires
        drawn(dst, src),
        0 <= row < dst.1,
        0 <= col < dst.0,
    ensures
        0 <= sampled(row, src.1, dst.1),
        0 <= sampled(col, src.0, dst.0),
        0 <= sampled(row, src.1, dst.1) * src.0,
        0 <= sampled(row, src.1, dst.1) / 2 * (src.0 / 2),
        0 <= luma_at(row, col, dst, src) <= luma_at(dst.1 - 1, dst.0 - 1, dst, src),
        0 <= chroma_at(row, col, dst, src) <= chroma_at(dst.1 - 1, dst.0 - 1, dst, src),
        0 <= row * src.1 <= (dst.1 - 1) * src.1,
        0 <= col * src.0 <= (dst.0 - 1) * src.0,
{
    lemma_sampled(row, dst.1 - 1, src.1, dst.1);
    lemma_sampled(col, dst.0 - 1, src.0, dst.0);
    let a = sampled(row, src.1, dst.1);
    let b = sampled(dst.1 - 1, src.1, dst.1);
    let w = src.0;
    assert(0 <= a * w <= b * w) by (nonlinear_arith)
        requires
            0 <= a <= b,
            0 < w,
    ;
    let c = a / 2;
    let d = b / 2;
    let h = src.0 / 2;
    assert(0 <= c * h <= d * h) by (nonlinear_arith)
        requires
            0 <= c <= d,
            0 <= h,
    ;
}

/// Draws the picture of size `src_w` x `src_h` whose planes are given into `dst`, scaled to
/// `dst_w` x `dst_h`, four bytes per pixel: red, green, blue, and an alpha of 255. Where
/// either picture is empty nothing is drawn.
pub fn render_yuv420_to_rgba(
    dst: &mut [u8],
    dst_w: usize,
    dst_h: usize,
    y: &[u8],
    u: &[u8],
    v: &[u8],
    src_w: usize,
    src_h: usize,
)
    requires
        dst_w * dst_h * 4 <= old(dst)@.len(),
        drawn((dst_w as int, dst_h as int), (src_w as int, src_h as int)) ==> {
            &&& covered(
                y@.len(),
                u@.len(),
                v@.len(),
                (dst_w as int, dst_h as int),
                (src_w as int, src_h as int),
            )
            &&& (dst_w - 1) * src_w <= usize::MAX
            &&& (dst_h - 1) * src_h <= usize::MAX
        },
    ensures
        final(dst)@.len() == old(dst)@.len(),
        forall|i: int|
            0 <= i < old(dst)@.len() ==> #[trigger] final(dst)@[i] == if drawn(
                (dst_w as int, dst_h as int),
                (src_w as int, src_h as int),
            ) && i < dst_w * dst_h * 4 {
                byte_at(
                    i,
                    y@,
                    u@,
                    v@,
                    (dst_w as int, dst_h as int),
                    (src_w as int, src_h as int),
                )
            } else {
                old(dst)@[i] as int
            },
{
    if dst_w == 0 || dst_h == 0 || src_w == 0 || src_h == 0 {
        return ;
    }
    let ghost d = (dst_w as int, dst_h as int);
    let ghost s = (src_w as int, src_h as int);
    let ghost before = dst@;
    assert(dst.len() == dst@.len());
    assert(y.len() == y@.len());
    assert(u.len() == u@.len());
    let uv_w: usize = src_w / 2;
    let mut row: usize = 0;
    while row < dst_h
        invariant
            row <= dst_h,
            d == (dst_w as int, dst_h as int),
            s == (src_w as int, src_h as int),
            drawn(d, s),
            uv_w == src_w / 2,
            covered(y@.len(), u@.len(), v@.len(), d, s),
            y@.len() <= usize::MAX,
            u@.len() <= usize::MAX,
            (dst_w - 1) * src_w <= usize::MAX,
            (dst_h - 1) * src_h <= usize::MAX,
            dst_w * dst_h * 4 <= before.len() <= usize::MAX,
            dst@.len() == before.len(),
            forall|i: int|
                0 <= i < before.len() ==> #[trigger] dst@[i] == if i < row * dst_w * 4 {
                    byte_at(i, y@, u@, v@, d, s)
                } else {
                    before[i] as int
                },
        decreases dst_h - row,
    {
        proof {
            lemma_in_planes(row as int, 0, d, s);
            lemma_in_planes(row as int, dst_w - 1, d, s);
        }
        let sy: usize = row * src_h / dst_h;
        let sy_uv: usize = sy / 2;
        let y_row: usize = sy * src_w;
        let uv_row: usize = sy_uv * uv_w;
        let mut col: usize = 0;
        while col < dst_w
            invariant
                row < dst_h,
                col <= dst_w,
                d == (dst_w as int, dst_h as int),
                s == (src_w as int, src_h as int),
                drawn(d, s),
                covered(y@.len(), u@.len(), v@.len(), d, s),
                y@.len() <= usize::MAX,
                u@.len() <= usize::MAX,
                (dst_w - 1) * src_w <= usize::MAX,
                dst_w * dst_h * 4 <= before.len() <= usize::MAX,
                y_row == sampled(row as int, s.1, d.1) * s.0,
                uv_row == sampled(row as int, s.1, d.1) / 2 * (s.0 / 2),
                dst@.len() == before.len(),
                forall|i: int|
                    0 <= i < before.len() ==> #[trigger] dst@[i] == if i < (row * dst_w + col) * 4 {
                        byte_at(i, y@, u@, v@, d, s)
                    } else {
                        before[i] as int
                    },
            decreases dst_w - col,
        {
            let ghost p: int = row * dst_w + col;
            proof {
                lemma_in_planes(row as int, col as int, d, s);
                assert(0 <= row * dst_w && p + 1 <= dst_w * dst_h) by (nonlinear_arith)
                    requires
                        p == row * dst_w + col,
                        0 <= row,
                        row + 1 <= dst_h,
                        col + 1 <= dst_w,
                ;
                assert(p / d.0 == row && p % d.0 == col) by {
                    vstd::arithmetic::div_mod::lemma_fundamental_div_mod_converse(
                        p,
                        d.0,
                        row as int,
                        col as int,
                    );
                }
            }
            let sx: usize = col * src_w / dst_w;
            let sx_uv: usize = sx / 2;
            let y_idx: usize = y_row + sx;
            let uv_idx: usize = uv_row + sx_uv;
            let (r, g, b) = yuv_to_rgb(y[y_idx], u[uv_idx], v[uv_idx]);
            let o: usize = (row * dst_w + col) * 4;
            let ghost was = dst@;
            dst[o] = r;
            dst[o + 1] = g;
            dst[o + 2] = b;
            dst[o + 3] = 255;
            col += 1;
            assert((row * dst_w + col) * 4 == o + 4);
            assert(o / 4 == p && (o + 1) / 4 == p && (o + 2) / 4 == p && (o + 3) / 4 == p);
            assert forall|i: int| 0 <= i < before.len() implies #[trigger] dst@[i] == if i < o + 4 {
                byte_at(i, y@, u@, v@, d, s)
            } else {
                before[i] as int
            } by {
                if i < o || i >= o + 4 {
                    assert(dst@[i] == was[i]);
                }
            }
        }
        row += 1;
        assert(row * dst_w == (row - 1) * dst_w + dst_w) by (nonlinear_arith)
            requires
                row >= 1,
        ;
    }
    assert(row * dst_w == dst_w * dst_h) by (nonlinear_arith)
        requires
            row == dst_h,
    ;
}

/// Drawing a picture at its own size samples every pixel where it stands.
pub proof fn law_own_size_keeps_pixels(row: int, col: int, size: (int, int))
    requires
        0 <= row < size.1,
        0 <= col < size.0,
    ensures
        luma_at(row, col, size, size) == row * size.0 + col,
        chroma_at(row, col, size, size) == row / 2 * (size.0 / 2) + col / 2,
{
    assert(row * size.1 / size.1 == row) by (nonlinear_arith)
        requires
            size.1 > 0,
    ;
    assert(col * size.0 / size.0 == col) by (nonlinear_arith)
        requires
            size.0 > 0,
    ;
}

} // verus!
