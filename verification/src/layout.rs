//! The mathematical model of a rendered picture: its bytes, its row bands and
//! the laws that relate them.
use vstd::arithmetic::div_mod::*;
use vstd::arithmetic::mul::*;
use vstd::prelude::*;

verus! {

/// Channel `c` of a colour: 0 is red, 1 is green, anything else is blue.
pub open spec fn channel(color: (u8, u8, u8), c: int) -> u8 {
    if c == 0 {
        color.0
    } else if c == 1 {
        color.1
    } else {
        color.2
    }
}

/// The bytes of the rows `start_y..end_y` of a picture that is `width` pixels
/// wide: row after row from the top, pixels from left to right, three bytes
/// (red, green, blue) for each pixel.
pub open spec fn band_bytes(
    picture: spec_fn(int, int) -> (u8, u8, u8),
    width: int,
    start_y: int,
    end_y: int,
) -> Seq<u8> {
    Seq::new(
        (3 * width * (end_y - start_y)) as nat,
        |i: int| channel(picture((i / 3) % width, start_y + (i / 3) / width), i % 3),
    )
}

/// The bytes of the whole picture, `height` rows of `width` pixels.
pub open spec fn image_bytes(
    picture: spec_fn(int, int) -> (u8, u8, u8),
    width: int,
    height: int,
) -> Seq<u8> {
    band_bytes(picture, width, 0, height)
}

/// Rows given to every band but the last when `height` rows are shared among
/// `bands` workers.
pub open spec fn band_rows(height: int, bands: int) -> int {
    height / bands
}

/// First row of band `k`.
pub open spec fn band_start(height: int, bands: int, k: int) -> int {
    k * band_rows(height, bands)
}

/// The row after the last row of band `k`. The last band takes what the
/// others leave.
pub open spec fn band_end(height: int, bands: int, k: int) -> int {
    if k + 1 == bands {
        height
    } else {
        (k + 1) * band_rows(height, bands)
    }
}

/// The bytes of the first `k` bands, one band after another.
pub open spec fn bands_bytes(
    picture: spec_fn(int, int) -> (u8, u8, u8),
    width: int,
    height: int,
    bands: int,
    k: int,
) -> Seq<u8>
    decreases k,
{
    if k <= 0 {
        Seq::empty()
    } else {
        bands_bytes(picture, width, height, bands, k - 1) + band_bytes(
            picture,
            width,
            band_start(height, bands, k - 1),
            band_end(height, bands, k - 1),
        )
    }
}

/// Size of every chunk but the last when `len` items are cut into `n` chunks
/// whose sizes are multiples of `ensure_multiple`.
pub open spec fn chunk_size(len: int, n: int, ensure_multiple: int) -> int {
    ensure_multiple * (len / (ensure_multiple * n))
}

/// Size of chunk `k`: the last chunk takes what the others leave.
pub open spec fn chunk_len(len: int, n: int, ensure_multiple: int, k: int) -> int {
    if k + 1 == n {
        len - (n - 1) * chunk_size(len, n, ensure_multiple)
    } else {
        chunk_size(len, n, ensure_multiple)
    }
}

/// Sum of the sizes of the first `k` chunks.
pub open spec fn chunks_total(len: int, n: int, ensure_multiple: int, k: int) -> int
    decreases k,
{
    if k <= 0 {
        0
    } else {
        chunks_total(len, n, ensure_multiple, k - 1) + chunk_len(len, n, ensure_multiple, k - 1)
    }
}

/// A band never starts after it ends, and no band reaches past the picture.
pub proof fn lemma_band_bounds(height: int, bands: int, k: int)
    requires
        0 <= height,
        1 <= bands,
        0 <= k < bands,
    ensures
        0 <= band_rows(height, bands),
        0 <= band_start(height, bands, k) <= band_end(height, bands, k) <= height,
        band_rows(height, bands) * bands <= height,
        k + 1 < bands ==> band_end(height, bands, k) == band_start(height, bands, k + 1),
{
    let q = height / bands;
    lemma_fundamental_div_mod(height, bands);
    lemma_mod_bound(height, bands);
    lemma_div_pos_is_pos(height, bands);
    assert(bands * q <= height);
    assert(q * bands == bands * q) by (nonlinear_arith);
    assert(0 <= k * q) by (nonlinear_arith)
        requires
            0 <= k,
            0 <= q,
    ;
    assert(k * q <= (k + 1) * q) by (nonlinear_arith)
        requires
            0 <= q,
    ;
    assert((k + 1) * q <= bands * q) by (nonlinear_arith)
        requires
            k + 1 <= bands,
            0 <= q,
    ;
}

/// Cutting a band in two at row `mid` cuts its bytes in two.
pub proof fn lemma_band_bytes_split(
    picture: spec_fn(int, int) -> (u8, u8, u8),
    width: int,
    start_y: int,
    mid: int,
    end_y: int,
)
    requires
        0 <= width,
        start_y <= mid <= end_y,
    ensures
        band_bytes(picture, width, start_y, end_y) == band_bytes(picture, width, start_y, mid)
            + band_bytes(picture, width, mid, end_y),
{
    let whole = band_bytes(picture, width, start_y, end_y);
    let upper = band_bytes(picture, width, start_y, mid);
    let lower = band_bytes(picture, width, mid, end_y);
    let rows = mid - start_y;
    assert(3 * width * (end_y - start_y) == 3 * width * rows + 3 * width * (end_y - mid))
        by (nonlinear_arith)
        requires
            rows == mid - start_y,
    ;
    assert(0 <= 3 * width * rows) by (nonlinear_arith)
        requires
            0 <= width,
            0 <= rows,
    ;
    assert(0 <= 3 * width * (end_y - mid)) by (nonlinear_arith)
        requires
            0 <= width,
            0 <= end_y - mid,
    ;
    assert(whole.len() == upper.len() + lower.len());
    assert forall|i: int| 0 <= i < whole.len() implies whole[i] == (upper + lower)[i] by {
        if i >= upper.len() {
            let j = i - upper.len();
            assert(0 < width) by (nonlinear_arith)
                requires
                    0 <= width,
                    0 < 3 * width * (end_y - mid),
            ;
            assert(i == 3 * (width * rows) + j) by (nonlinear_arith)
                requires
                    i == 3 * width * rows + j,
            ;
            lemma_fundamental_div_mod(j, 3);
            lemma_mod_bound(j, 3);
            let q = j / 3;
            let r = j % 3;
            assert(i == 3 * (width * rows + q) + r) by (nonlinear_arith)
                requires
                    i == 3 * (width * rows) + j,
                    j == 3 * q + r,
            ;
            lemma_fundamental_div_mod_converse(i, 3, width * rows + q, r);
            lemma_fundamental_div_mod(q, width);
            lemma_mod_bound(q, width);
            let qq = q / width;
            let rr = q % width;
            assert(width * rows + q == width * (rows + qq) + rr) by (nonlinear_arith)
                requires
                    q == width * qq + rr,
            ;
            lemma_fundamental_div_mod_converse(width * rows + q, width, rows + qq, rr);
        }
    }
    assert(whole =~= upper + lower);
}

/// The bytes of the first `k` bands are the bytes of the rows above band `k`.
pub proof fn lemma_bands_prefix(
    picture: spec_fn(int, int) -> (u8, u8, u8),
    width: int,
    height: int,
    bands: int,
    k: int,
)
    requires
        0 <= width,
        0 <= height,
        1 <= bands,
        0 <= k <= bands,
    ensures
        k < bands ==> bands_bytes(picture, width, height, bands, k) == band_bytes(
            picture,
            width,
            0,
            band_start(height, bands, k),
        ),
        k == bands ==> bands_bytes(picture, width, height, bands, k) == image_bytes(
            picture,
            width,
            height,
        ),
    decreases k,
{
    if k == 0 {
        assert(band_start(height, bands, 0) == 0);
        assert(3 * width * 0 == 0);
        assert(band_bytes(picture, width, 0, 0) =~= Seq::<u8>::empty());
    } else {
        lemma_bands_prefix(picture, width, height, bands, k - 1);
        lemma_band_bounds(height, bands, k - 1);
        lemma_band_bytes_split(
            picture,
            width,
            0,
            band_start(height, bands, k - 1),
            band_end(height, bands, k - 1),
        );
    }
}

/// However many bands share the rows, the bands' bytes put one after another
/// are the bytes of the picture rendered as a single band.
pub proof fn lemma_bands_tile_image(
    picture: spec_fn(int, int) -> (u8, u8, u8),
    width: int,
    height: int,
    bands: int,
)
    requires
        0 <= width,
        0 <= height,
        1 <= bands,
    ensures
        bands_bytes(picture, width, height, bands, bands) == image_bytes(picture, width, height),
        bands_bytes(picture, width, height, bands, bands) == bands_bytes(
            picture,
            width,
            height,
            1,
            1,
        ),
{
    lemma_bands_prefix(picture, width, height, bands, bands);
    lemma_bands_prefix(picture, width, height, 1, 1);
}

/// The chunks are no larger than their share, the last one is not negative,
/// and together they hold every item.
pub proof fn lemma_chunks_cover(len: int, n: int, ensure_multiple: int)
    requires
        0 <= len,
        1 <= n,
        1 <= ensure_multiple,
    ensures
        0 <= chunk_size(len, n, ensure_multiple),
        chunk_size(len, n, ensure_multiple) * n <= len,
        chunk_size(len, n, ensure_multiple) % ensure_multiple == 0,
        0 <= chunk_len(len, n, ensure_multiple, n - 1),
        chunks_total(len, n, ensure_multiple, n) == len,
{
    let m = ensure_multiple;
    let c = chunk_size(len, n, m);
    lemma_chunk_size_bounds(len, n, m);
    lemma_mod_multiples_basic(len / (m * n), m);
    assert(c == (len / (m * n)) * m) by (nonlinear_arith)
        requires
            c == m * (len / (m * n)),
    ;
    assert((n - 1) * c <= c * n) by (nonlinear_arith)
        requires
            0 <= c,
            1 <= n,
    ;
    lemma_chunks_prefix(len, n, m, n - 1);
    assert((n - 1) * c + (len - (n - 1) * c) == len);
}

/// A chunk is not negative and `n` of them fit.
pub proof fn lemma_chunk_size_bounds(len: int, n: int, ensure_multiple: int)
    requires
        0 <= len,
        1 <= n,
        1 <= ensure_multiple,
    ensures
        0 <= chunk_size(len, n, ensure_multiple),
        chunk_size(len, n, ensure_multiple) * n <= len,
        chunk_size(len, n, ensure_multiple) == ensure_multiple * ((len / ensure_multiple) / n),
{
    let m = ensure_multiple;
    let d = m * n;
    assert(1 <= d) by (nonlinear_arith)
        requires
            d == m * n,
            1 <= m,
            1 <= n,
    ;
    let q = len / d;
    lemma_fundamental_div_mod(len, d);
    lemma_mod_bound(len, d);
    lemma_div_pos_is_pos(len, d);
    assert(0 <= m * q) by (nonlinear_arith)
        requires
            0 <= q,
            1 <= m,
    ;
    assert((m * q) * n == d * q) by (nonlinear_arith)
        requires
            d == m * n,
    ;
    lemma_div_denominator(len, m, n);
}

/// The first `k` chunks, none of them the last, hold `k` full chunks.
pub proof fn lemma_chunks_prefix(len: int, n: int, ensure_multiple: int, k: int)
    requires
        0 <= k < n,
    ensures
        chunks_total(len, n, ensure_multiple, k) == k * chunk_size(len, n, ensure_multiple),
    decreases k,
{
    let c = chunk_size(len, n, ensure_multiple);
    if k > 0 {
        lemma_chunks_prefix(len, n, ensure_multiple, k - 1);
        assert((k - 1) * c + c == k * c) by (nonlinear_arith);
    } else {
        assert(0 * c == 0);
    }
}

/// A picture's buffer cut for `bands` workers into chunks of whole rows gives
/// every worker but the last `band_rows` rows.
pub proof fn lemma_chunk_is_band(width: int, height: int, bands: int)
    requires
        1 <= width,
        0 <= height,
        1 <= bands,
    ensures
        chunk_size(3 * width * height, bands, 3 * width) == 3 * width * band_rows(height, bands),
        chunk_size(3 * width * height, bands, 3 * width) / (3 * width) == band_rows(height, bands),
{
    let m = 3 * width;
    assert(m * height == 3 * width * height) by (nonlinear_arith)
        requires
            m == 3 * width,
    ;
    lemma_div_multiples_vanish_quotient(m, height, bands);
    let q = height / bands;
    assert((m * height) / (m * bands) == q);
    lemma_div_multiples_vanish(q, m);
    assert(m * q == q * m) by (nonlinear_arith);
    assert(3 * width * q == m * q) by (nonlinear_arith)
        requires
            m == 3 * width,
    ;
}

} // verus!
