//! What it means for a buffer to hold the colours that a shading function
//! gives, and how such buffers join.
use crate::layout::{band_bytes, channel};
use vstd::arithmetic::div_mod::*;
use vstd::prelude::*;

verus! {

/// The three bytes of the pixel that is `p` pixels from the start of `bytes`.
pub open spec fn linear_pixel(bytes: Seq<u8>, p: int) -> (u8, u8, u8) {
    (bytes[3 * p], bytes[3 * p + 1], bytes[3 * p + 2])
}

/// The three bytes that `bytes`, a band that starts at row `start_y`, holds
/// for the pixel in column `x` of row `y`.
pub open spec fn band_pixel(bytes: Seq<u8>, width: int, start_y: int, x: int, y: int) -> (
    u8,
    u8,
    u8,
) {
    linear_pixel(bytes, (y - start_y) * width + x)
}

/// `shade` may be asked for every pixel of the rows `start_y..end_y`.
pub open spec fn shadable<F: Fn(usize, usize) -> (u8, u8, u8)>(
    shade: &F,
    width: int,
    start_y: int,
    end_y: int,
) -> bool {
    forall|x: usize, y: usize|
        0 <= x < width && start_y <= y < end_y ==> #[trigger] call_requires(shade, (x, y))
}

/// `bytes` has room for the rows `start_y..end_y` and holds, for every pixel
/// of these rows, a colour that `shade` gives for that pixel.
pub open spec fn shaded<F: Fn(usize, usize) -> (u8, u8, u8)>(
    shade: &F,
    width: int,
    start_y: int,
    end_y: int,
    bytes: Seq<u8>,
) -> bool {
    &&& 3 * width * (end_y - start_y) <= bytes.len()
    &&& forall|x: int, y: int|
        0 <= x < width && start_y <= y < end_y ==> call_ensures(
            shade,
            (x as usize, y as usize),
            #[trigger] band_pixel(bytes, width, start_y, x, y),
        )
}

/// `shade` gives one colour only for each pixel, the colour that `picture`
/// names.
pub open spec fn paints<F: Fn(usize, usize) -> (u8, u8, u8)>(
    shade: &F,
    picture: spec_fn(int, int) -> (u8, u8, u8),
) -> bool {
    forall|x: usize, y: usize, color: (u8, u8, u8)| #[trigger]
        call_ensures(shade, (x, y), color) ==> color == picture(x as int, y as int)
}

/// The bytes of a pixel of a band lie inside the band.
pub proof fn lemma_pixel_in_band(width: int, rows: int, x: int, row: int)
    requires
        0 <= x < width,
        0 <= row < rows,
    ensures
        0 <= row * width + x < width * rows,
        0 <= 3 * (row * width + x),
        3 * (row * width + x) + 2 < 3 * width * rows,
        (row * width + x) / width == row,
        (row * width + x) % width == x,
{
    assert(0 <= row * width) by (nonlinear_arith)
        requires
            0 <= row,
            0 <= width,
    ;
    assert(row * width + width <= width * rows) by (nonlinear_arith)
        requires
            row + 1 <= rows,
            0 <= width,
    ;
    assert(3 * (width * rows) == 3 * width * rows) by (nonlinear_arith);
    assert(row * width + x == width * row + x) by (nonlinear_arith);
    lemma_fundamental_div_mod_converse(row * width + x, width, row, x);
}

/// A band of shaded rows followed by the band of the rows below it is the
/// band of all these rows, shaded.
pub proof fn lemma_shaded_append<F: Fn(usize, usize) -> (u8, u8, u8)>(
    shade: &F,
    width: int,
    start_y: int,
    mid: int,
    end_y: int,
    upper: Seq<u8>,
    lower: Seq<u8>,
)
    requires
        0 <= width,
        start_y <= mid <= end_y,
        upper.len() == 3 * width * (mid - start_y),
        shaded(shade, width, start_y, mid, upper),
        shaded(shade, width, mid, end_y, lower),
    ensures
        shaded(shade, width, start_y, end_y, upper + lower),
{
    let joined = upper + lower;
    assert(3 * width * (end_y - start_y) == 3 * width * (mid - start_y) + 3 * width * (end_y
        - mid)) by (nonlinear_arith);
    assert forall|x: int, y: int| 0 <= x < width && start_y <= y < end_y implies call_ensures(
        shade,
        (x as usize, y as usize),
        #[trigger] band_pixel(joined, width, start_y, x, y),
    ) by {
        if y < mid {
            lemma_pixel_in_band(width, mid - start_y, x, y - start_y);
            assert(band_pixel(joined, width, start_y, x, y) == band_pixel(
                upper,
                width,
                start_y,
                x,
                y,
            ));
        } else {
            lemma_pixel_in_band(width, end_y - mid, x, y - mid);
            let p = (y - mid) * width + x;
            let q = (y - start_y) * width + x;
            assert(3 * q == upper.len() + 3 * p) by (nonlinear_arith)
                requires
                    upper.len() == 3 * width * (mid - start_y),
                    p == (y - mid) * width + x,
                    q == (y - start_y) * width + x,
            ;
            assert(joined[3 * q] == lower[3 * p]);
            assert(joined[3 * q + 1] == lower[3 * p + 1]);
            assert(joined[3 * q + 2] == lower[3 * p + 2]);
            assert(band_pixel(joined, width, start_y, x, y) == band_pixel(
                lower,
                width,
                mid,
                x,
                y,
            ));
        }
    }
}

/// Where the shading function gives one colour only for each pixel, a shaded
/// band is the band of the picture that the function paints, byte for byte.
pub proof fn lemma_shaded_is_band<F: Fn(usize, usize) -> (u8, u8, u8)>(
    shade: &F,
    picture: spec_fn(int, int) -> (u8, u8, u8),
    width: int,
    start_y: int,
    end_y: int,
    bytes: Seq<u8>,
)
    requires
        0 <= width <= usize::MAX,
        0 <= start_y <= end_y <= usize::MAX,
        bytes.len() == 3 * width * (end_y - start_y),
        shaded(shade, width, start_y, end_y, bytes),
        paints(shade, picture),
    ensures
        bytes == band_bytes(picture, width, start_y, end_y),
{
    let band = band_bytes(picture, width, start_y, end_y);
    let rows = end_y - start_y;
    assert(band.len() == bytes.len());
    assert forall|i: int| 0 <= i < bytes.len() implies bytes[i] == band[i] by {
        let p = i / 3;
        let c = i % 3;
        lemma_fundamental_div_mod(i, 3);
        lemma_mod_bound(i, 3);
        assert(0 < width) by (nonlinear_arith)
            requires
                0 <= width,
                0 < 3 * width * rows,
        ;
        assert(0 <= p < width * rows) by (nonlinear_arith)
            requires
                i == 3 * p + c,
                0 <= c < 3,
                0 <= i < 3 * width * rows,
        ;
        let x = p % width;
        let row = p / width;
        lemma_fundamental_div_mod(p, width);
        lemma_mod_bound(p, width);
        assert(0 <= row < rows) by (nonlinear_arith)
            requires
                p == width * row + x,
                0 <= x < width,
                0 <= p < width * rows,
        ;
        let y = start_y + row;
        assert((y - start_y) * width + x == p) by (nonlinear_arith)
            requires
                p == width * row + x,
                y - start_y == row,
        ;
        let color = band_pixel(bytes, width, start_y, x, y);
        assert(call_ensures(shade, (x as usize, y as usize), color));
        assert(color == picture(x, y));
        assert(bytes[i] == channel(color, c));
    }
    assert(bytes =~= band);
}

/// Where the shading function gives one colour only for each pixel, two
/// shaded buffers for the same rows hold the same bytes.
pub proof fn lemma_shaded_once<F: Fn(usize, usize) -> (u8, u8, u8)>(
    shade: &F,
    picture: spec_fn(int, int) -> (u8, u8, u8),
    width: int,
    start_y: int,
    end_y: int,
    first: Seq<u8>,
    second: Seq<u8>,
)
    requires
        0 <= width <= usize::MAX,
        0 <= start_y <= end_y <= usize::MAX,
        first.len() == 3 * width * (end_y - start_y),
        second.len() == 3 * width * (end_y - start_y),
        shaded(shade, width, start_y, end_y, first),
        shaded(shade, width, start_y, end_y, second),
        paints(shade, picture),
    ensures
        first == second,
{
    lemma_shaded_is_band(shade, picture, width, start_y, end_y, first);
    lemma_shaded_is_band(shade, picture, width, start_y, end_y, second);
}

} // verus!
