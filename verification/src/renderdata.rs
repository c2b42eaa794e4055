//! The raster that a render fills, and the renderer that fills it band by band.
use crate::layout::{
    band_end, band_rows, band_start, chunk_len, chunk_size, lemma_band_bounds,
    lemma_chunk_is_band, lemma_chunk_size_bounds,
};
use crate::shading::{
    band_pixel, lemma_pixel_in_band, lemma_shaded_append, linear_pixel, shadable, shaded,
};
use vstd::prelude::*;

verus! {

/// The bytes of the first `k` buffers of `parts`, one buffer after another.
pub open spec fn joined(parts: Seq<Vec<u8>>, k: int) -> Seq<u8>
    decreases k,
{
    if k <= 0 {
        Seq::empty()
    } else {
        joined(parts, k - 1) + parts[k - 1]@
    }
}

/// Whether `parts` holds, for each of the `bands` bands of a picture, a
/// buffer of the band's size in which `shade` shaded the band's rows.
pub open spec fn bands_shaded<F: Fn(usize, usize) -> (u8, u8, u8)>(
    shade: &F,
    width: int,
    height: int,
    bands: int,
    parts: Seq<Vec<u8>>,
) -> bool {
    &&& parts.len() == bands
    &&& forall|k: int|
        0 <= k < bands ==> {
            &&& (#[trigger] parts[k])@.len() == 3 * width * (band_end(height, bands, k)
                - band_start(height, bands, k))
            &&& shaded(
                shade,
                width,
                band_start(height, bands, k),
                band_end(height, bands, k),
                parts[k]@,
            )
        }
}

/// The first `k` shaded bands, joined, are the rows above band `k`, shaded.
pub proof fn lemma_joined_prefix<F: Fn(usize, usize) -> (u8, u8, u8)>(
    shade: &F,
    width: int,
    height: int,
    bands: int,
    parts: Seq<Vec<u8>>,
    k: int,
)
    requires
        0 <= width,
        0 <= height,
        1 <= bands,
        1 <= k <= bands,
        bands_shaded(shade, width, height, bands, parts),
    ensures
        joined(parts, k).len() == 3 * width * band_end(height, bands, k - 1),
        shaded(shade, width, 0, band_end(height, bands, k - 1), joined(parts, k)),
    decreases k,
{
    let start = band_start(height, bands, k - 1);
    let end = band_end(height, bands, k - 1);
    lemma_band_bounds(height, bands, k - 1);
    assert(3 * width * start + 3 * width * (end - start) == 3 * width * end)
        by (nonlinear_arith);
    if k == 1 {
        assert(start == 0) by {
            assert(0 * band_rows(height, bands) == 0);
        }
        assert(3 * width * 0 == 0);
        assert(joined(parts, 0) =~= Seq::<u8>::empty());
        assert(shaded(shade, width, 0, 0, joined(parts, 0)));
    } else {
        lemma_joined_prefix(shade, width, height, bands, parts, k - 1);
        lemma_band_bounds(height, bands, k - 2);
    }
    lemma_shaded_append(shade, width, 0, start, end, joined(parts, k - 1), parts[k - 1]@);
}

/// Bands that were shaded apart, in any number, join to the shaded picture.
pub proof fn lemma_joined_bands_shaded<F: Fn(usize, usize) -> (u8, u8, u8)>(
    shade: &F,
    width: int,
    height: int,
    bands: int,
    parts: Seq<Vec<u8>>,
)
    requires
        0 <= width,
        0 <= height,
        1 <= bands,
        bands_shaded(shade, width, height, bands, parts),
    ensures
        joined(parts, bands).len() == 3 * width * height,
        shaded(shade, width, 0, height, joined(parts, bands)),
{
    lemma_joined_prefix(shade, width, height, bands, parts, bands);
}

/// Rows in the band `start_y..end_y`, none where the band is empty.
pub open spec fn rows_between(start_y: int, end_y: int) -> int {
    if start_y <= end_y {
        end_y - start_y
    } else {
        0
    }
}

/// The raster of a scene: `width` by `height` pixels, three bytes each.
///
/// Both sides are at least one pixel long and the picture's bytes can be
/// counted in a `usize`.
pub struct RenderData {
    width: usize,
    height: usize,
}

impl RenderData {
    #[verifier::type_invariant]
    spec fn well_formed(self) -> bool {
        &&& 1 <= self.width
        &&& 1 <= self.height
        &&& 3 * self.width * self.height <= usize::MAX
    }

    /// Pixels in a row.
    pub closed spec fn spec_width(self) -> int {
        self.width as int
    }

    /// Rows in the picture.
    pub closed spec fn spec_height(self) -> int {
        self.height as int
    }

    /// Whether a raster of this size can be held.
    pub open spec fn fits(width: int, height: int) -> bool {
        &&& 1 <= width
        &&& 1 <= height
        &&& 3 * width * height <= usize::MAX
    }

    /// A raster of `width` by `height` pixels, if such a raster can be held.
    pub fn new(width: usize, height: usize) -> (data: Option<Self>)
        ensures
            data is Some <==> Self::fits(width as int, height as int),
            data is Some ==> data.unwrap().spec_width() == width && data.unwrap().spec_height()
                == height,
    {
        if width == 0 || height == 0 {
            return None;
        }
        let row = match width.checked_mul(3) {
            Some(row) => row,
            None => {
                proof {
                    assert(3 * width * height >= 3 * width) by (nonlinear_arith)
                        requires
                            1 <= height,
                            0 <= width,
                    ;
                }
                return None;
            },
        };
        match row.checked_mul(height) {
            Some(_) => Some(RenderData { width, height }),
            None => None,
        }
    }

    /// Pixels in a row.
    pub fn width(&self) -> (width: usize)
        ensures
            width == self.spec_width(),
            1 <= width,
    {
        proof {
            use_type_invariant(self);
        }
        self.width
    }

    /// Rows in the picture.
    pub fn height(&self) -> (height: usize)
        ensures
            height == self.spec_height(),
            1 <= height,
    {
        proof {
            use_type_invariant(self);
        }
        self.height
    }

    /// Bytes in the picture.
    pub fn buffer_len(&self) -> (len: usize)
        ensures
            len == 3 * self.spec_width() * self.spec_height(),
    {
        proof {
            use_type_invariant(self);
            assert(3 * self.width <= 3 * self.width * self.height) by (nonlinear_arith)
                requires
                    1 <= self.height,
            ;
        }
        3 * self.width * self.height
    }

    /// Cuts `len` items into `n` chunks that follow one another. Every chunk
    /// but the last holds the same number of items, the largest multiple of
    /// `ensure_multiple` that `n` chunks have room for; the last chunk holds
    /// the rest. Returns that number and the sizes of the chunks in order.
    pub fn split_into_equal_chunks(len: usize, n: usize, ensure_multiple: usize) -> (chunks: (
        usize,
        Vec<usize>,
    ))
        requires
            1 <= n,
            1 <= ensure_multiple,
        ensures
            chunks.0 == chunk_size(len as int, n as int, ensure_multiple as int),
            chunks.1@.len() == n,
            forall|k: int|
                0 <= k < n ==> #[trigger] chunks.1@[k] == chunk_len(
                    len as int,
                    n as int,
                    ensure_multiple as int,
                    k,
                ),
    {
        proof {
            lemma_chunk_size_bounds(len as int, n as int, ensure_multiple as int);
            let c = chunk_size(len as int, n as int, ensure_multiple as int);
            assert(c <= c * n) by (nonlinear_arith)
                requires
                    0 <= c,
                    1 <= n,
            ;
            assert((n - 1) * c <= c * n) by (nonlinear_arith)
                requires
                    0 <= c,
                    1 <= n,
            ;
        }
        let chunk: usize = ensure_multiple * ((len / ensure_multiple) / n);
        let mut result: Vec<usize> = Vec::new();
        let mut k: usize = 0;
        while k < n - 1
            invariant
                1 <= n,
                k <= n - 1,
                result@.len() == k,
                chunk == chunk_size(len as int, n as int, ensure_multiple as int),
                forall|j: int|
                    0 <= j < k ==> #[trigger] result@[j] == chunk_len(
                        len as int,
                        n as int,
                        ensure_multiple as int,
                        j,
                    ),
            decreases n - 1 - k,
        {
            result.push(chunk);
            k += 1;
        }
        let rest: usize = len - (n - 1) * chunk;
        result.push(rest);
        (chunk, result)
    }

    /// The rows of each band when `thread_count` workers share the picture:
    /// for each band its first row and the row after its last. Every band
    /// but the last has `height / thread_count` rows, and the last has the
    /// rest.
    pub fn row_bands(&self, thread_count: usize) -> (bands: Vec<(usize, usize)>)
        requires
            1 <= thread_count,
        ensures
            bands@.len() == thread_count,
            forall|k: int|
                0 <= k < thread_count ==> #[trigger] bands@[k] == (
                    band_start(self.spec_height(), thread_count as int, k) as usize,
                    band_end(self.spec_height(), thread_count as int, k) as usize,
                ),
    {
        proof {
            use_type_invariant(self);
        }
        let height = self.height;
        let frac: usize = height / thread_count;
        let mut bands: Vec<(usize, usize)> = Vec::new();
        let mut start_y: usize = 0;
        let mut t: usize = 0;
        while t < thread_count - 1
            invariant
                1 <= thread_count,
                t <= thread_count - 1,
                height == self.spec_height(),
                frac == band_rows(height as int, thread_count as int),
                start_y == band_start(height as int, thread_count as int, t as int),
                bands@.len() == t,
                forall|k: int|
                    0 <= k < t ==> #[trigger] bands@[k] == (
                        band_start(height as int, thread_count as int, k) as usize,
                        band_end(height as int, thread_count as int, k) as usize,
                    ),
            decreases thread_count - 1 - t,
        {
            proof {
                lemma_band_bounds(height as int, thread_count as int, t as int);
                assert(t * frac + frac == (t + 1) * frac) by (nonlinear_arith);
            }
            let end_y: usize = start_y + frac;
            bands.push((start_y, end_y));
            start_y = end_y;
            t += 1;
        }
        bands.push((start_y, height));
        bands
    }

    /// Shades the rows `start_y..end_y` into `slice`: row after row from the
    /// top of the band, pixels from left to right, three bytes for each
    /// pixel. What `slice` holds behind the band is left as it was.
    pub fn render_slice<F: Fn(usize, usize) -> (u8, u8, u8)>(
        &self,
        slice: &mut [u8],
        start_y: usize,
        end_y: usize,
        shade: &F,
    )
        requires
            3 * self.spec_width() * rows_between(start_y as int, end_y as int) <= old(slice)@.len(),
            shadable(shade, self.spec_width(), start_y as int, end_y as int),
        ensures
            final(slice)@.len() == old(slice)@.len(),
            shaded(shade, self.spec_width(), start_y as int, end_y as int, final(slice)@),
            forall|i: int|
                3 * self.spec_width() * rows_between(start_y as int, end_y as int) <= i < old(
                    slice,
                )@.len() ==> final(slice)@[i] == old(slice)@[i],
    {
        proof {
            use_type_invariant(self);
        }
        let width = self.width;
        let len = slice.len();
        let ghost rows = rows_between(start_y as int, end_y as int);
        let mut px_y: usize = start_y;
        proof {
            assert(0 * width == 0);
            if end_y < start_y {
                assert(3 * width * (end_y - start_y) <= 0) by (nonlinear_arith)
                    requires
                        end_y - start_y < 0,
                        1 <= width,
                ;
            }
        }
        while px_y < end_y
            invariant
                1 <= width,
                width == self.spec_width(),
                rows == rows_between(start_y as int, end_y as int),
                start_y <= px_y,
                start_y <= end_y ==> px_y <= end_y,
                end_y < start_y ==> px_y == start_y,
                slice@.len() == old(slice)@.len(),
                slice@.len() == len,
                3 * width * rows <= slice@.len(),
                shadable(shade, width as int, start_y as int, end_y as int),
                forall|p: int|
                    0 <= p < (px_y - start_y) * width ==> call_ensures(
                        shade,
                        ((p % (width as int)) as usize, (start_y + p / (width as int)) as usize),
                        #[trigger] linear_pixel(slice@, p),
                    ),
                forall|i: int|
                    3 * ((px_y - start_y) * width) <= i < slice@.len() ==> slice@[i] == old(
                        slice,
                    )@[i],
            decreases end_y - px_y,
        {
            let row: usize = px_y - start_y;
            let mut px_x: usize = 0;
            while px_x < width
                invariant
                    1 <= width,
                    px_x <= width,
                    row == px_y - start_y,
                    start_y <= px_y < end_y,
                    rows == end_y - start_y,
                    slice@.len() == old(slice)@.len(),
                    slice@.len() == len,
                    3 * width * rows <= slice@.len(),
                    shadable(shade, width as int, start_y as int, end_y as int),
                    forall|p: int|
                        0 <= p < row * width + px_x ==> call_ensures(
                            shade,
                            (
                                (p % (width as int)) as usize,
                                (start_y + p / (width as int)) as usize,
                            ),
                            #[trigger] linear_pixel(slice@, p),
                        ),
                    forall|i: int|
                        3 * (row * width + px_x) <= i < slice@.len() ==> slice@[i] == old(
                            slice,
                        )@[i],
                decreases width - px_x,
            {
                proof {
                    lemma_pixel_in_band(width as int, rows, px_x as int, row as int);
                }
                let color = shade(px_x, px_y);
                let index: usize = 3 * (row * width + px_x);
                let ghost before = slice@;
                slice[index] = color.0;
                slice[index + 1] = color.1;
                slice[index + 2] = color.2;
                proof {
                    let here = row * width + px_x;
                    assert forall|p: int| 0 <= p < here + 1 implies call_ensures(
                        shade,
                        ((p % (width as int)) as usize, (start_y + p / (width as int)) as usize),
                        #[trigger] linear_pixel(slice@, p),
                    ) by {
                        if p < here {
                            assert(linear_pixel(slice@, p) == linear_pixel(before, p));
                        } else {
                            assert(linear_pixel(slice@, p) == color);
                        }
                    }
                }
                px_x += 1;
            }
            proof {
                assert(row * width + width == (px_y + 1 - start_y) * width) by (nonlinear_arith)
                    requires
                        row == px_y - start_y,
                ;
            }
            px_y += 1;
        }
        proof {
            let w = width as int;
            if start_y <= end_y {
                assert(px_y == end_y);
            }
            assert forall|x: int, y: int| 0 <= x < w && start_y <= y < end_y implies call_ensures(
                shade,
                (x as usize, y as usize),
                #[trigger] band_pixel(slice@, w, start_y as int, x, y),
            ) by {
                lemma_pixel_in_band(w, rows, x, y - start_y);
                let p = (y - start_y) * w + x;
                assert(0 <= p < (px_y - start_y) * width) by (nonlinear_arith)
                    requires
                        0 <= p < w * rows,
                        rows == px_y - start_y,
                        w == width,
                ;
                assert(call_ensures(
                    shade,
                    ((p % w) as usize, (start_y + p / w) as usize),
                    linear_pixel(slice@, p),
                ));
            }
            assert(3 * ((px_y - start_y) * width) == 3 * width * rows) by (nonlinear_arith)
                requires
                    rows == px_y - start_y,
            ;
        }
    }

    /// Renders the picture as `thread_count` bands, one after another, and
    /// joins them. Every pixel holds a colour that `shade` gives for it,
    /// whatever the number of bands.
    pub fn render<F: Fn(usize, usize) -> (u8, u8, u8)>(&self, thread_count: usize, shade: &F) -> (array: Vec<u8>)
        requires
            1 <= thread_count,
            shadable(shade, self.spec_width(), 0, self.spec_height()),
        ensures
            array@.len() == 3 * self.spec_width() * self.spec_height(),
            shaded(shade, self.spec_width(), 0, self.spec_height(), array@),
    {
        proof {
            use_type_invariant(self);
        }
        let width = self.width;
        let height = self.height;
        let capacity: usize = self.buffer_len();
        proof {
            assert(3 * width <= 3 * width * height) by (nonlinear_arith)
                requires
                    1 <= height,
            ;
        }
        let (chunk, chunks) = Self::split_into_equal_chunks(capacity, thread_count, 3 * width);
        let frac: usize = chunk / (3 * width);
        proof {
            lemma_chunk_is_band(width as int, height as int, thread_count as int);
            assert(3 * width * 0 == 0);
        }
        let mut array: Vec<u8> = Vec::new();
        let mut start_y: usize = 0;
        let mut t: usize = 0;
        while t < thread_count
            invariant
                1 <= thread_count,
                t <= thread_count,
                1 <= width,
                width == self.spec_width(),
                height == self.spec_height(),
                capacity == 3 * width * height,
                frac == band_rows(height as int, thread_count as int),
                chunk == 3 * width * frac,
                chunks@.len() == thread_count,
                forall|k: int|
                    0 <= k < thread_count ==> #[trigger] chunks@[k] == chunk_len(
                        capacity as int,
                        thread_count as int,
                        3 * width,
                        k,
                    ),
                chunk == chunk_size(capacity as int, thread_count as int, 3 * width),
                t < thread_count ==> start_y == band_start(
                    height as int,
                    thread_count as int,
                    t as int,
                ),
                t == thread_count ==> start_y == height,
                array@.len() == 3 * width * start_y,
                shadable(shade, width as int, 0, height as int),
                shaded(shade, width as int, 0, start_y as int, array@),
            decreases thread_count - t,
        {
            proof {
                lemma_band_bounds(height as int, thread_count as int, t as int);
                assert(t * frac + frac == (t + 1) * frac) by (nonlinear_arith);
            }
            let end_y: usize = if t == thread_count - 1 {
                height
            } else {
                start_y + frac
            };
            proof {
                assert(end_y == band_end(height as int, thread_count as int, t as int));
                assert(chunks@[t as int] == 3 * width * (end_y - start_y)) by {
                    if t == thread_count - 1 {
                        assert((thread_count - 1) * (3 * width * frac) == 3 * width * start_y)
                            by (nonlinear_arith)
                            requires
                                start_y == (thread_count - 1) * frac,
                        ;
                        assert(3 * width * height - 3 * width * start_y == 3 * width * (height
                            - start_y)) by (nonlinear_arith);
                    } else {
                        assert(end_y - start_y == frac);
                    }
                }
            }
            let mut part: Vec<u8> = vec![0u8; chunks[t]];
            self.render_slice(part.as_mut_slice(), start_y, end_y, shade);
            proof {
                lemma_shaded_append(
                    shade,
                    width as int,
                    0,
                    start_y as int,
                    end_y as int,
                    array@,
                    part@,
                );
                assert(3 * width * start_y + 3 * width * (end_y - start_y) == 3 * width * end_y)
                    by (nonlinear_arith);
            }
            array.append(&mut part);
            start_y = end_y;
            t += 1;
        }
        array
    }

    /// Joins the buffers of the bands, in the order of the bands, into the
    /// buffer of the picture.
    pub fn join_bands(parts: &Vec<Vec<u8>>) -> (array: Vec<u8>)
        ensures
            array@ == joined(parts@, parts@.len() as int),
    {
        let mut array: Vec<u8> = Vec::new();
        let mut k: usize = 0;
        while k < parts.len()
            invariant
                k <= parts@.len(),
                array@ == joined(parts@, k as int),
            decreases parts@.len() - k,
        {
            let part = &parts[k];
            let mut i: usize = 0;
            while i < part.len()
                invariant
                    k < parts@.len(),
                    part == parts@[k as int],
                    i <= part@.len(),
                    array@ == joined(parts@, k as int) + part@.subrange(0, i as int),
                decreases part@.len() - i,
            {
                array.push(part[i]);
                proof {
                    assert(part@.subrange(0, i + 1) == part@.subrange(0, i as int).push(
                        part@[i as int],
                    ));
                }
                i += 1;
            }
            proof {
                assert(part@.subrange(0, part@.len() as int) == part@);
            }
            k += 1;
        }
        array
    }
}

} // verus!
