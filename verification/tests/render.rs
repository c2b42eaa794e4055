use raytracer::renderdata::RenderData;

fn shade(x: usize, y: usize) -> (u8, u8, u8) {
    ((x * 7 + 1) as u8, (y * 11 + 2) as u8, (x * y + 3) as u8)
}

#[test]
fn new_refuses_an_empty_raster() {
    assert!(RenderData::new(0, 5).is_none());
    assert!(RenderData::new(5, 0).is_none());
    assert!(RenderData::new(0, 0).is_none());
}

#[test]
fn new_refuses_a_raster_too_large_to_count() {
    assert!(RenderData::new(usize::MAX, 1).is_none());
    assert!(RenderData::new(usize::MAX / 3 + 1, 1).is_none());
    assert!(RenderData::new(usize::MAX / 3, 2).is_none());
    assert!(RenderData::new(usize::MAX / 3, 1).is_some());
}

#[test]
fn new_keeps_the_sizes() {
    let data = RenderData::new(800, 600).unwrap();
    assert_eq!(data.width(), 800);
    assert_eq!(data.height(), 600);
    assert_eq!(data.buffer_len(), 1_440_000);
}

#[test]
fn chunks_are_multiples_and_the_last_takes_the_rest() {
    let (chunk, sizes) = RenderData::split_into_equal_chunks(30, 4, 3);
    assert_eq!(chunk, 6);
    assert_eq!(sizes, vec![6, 6, 6, 12]);
}

#[test]
fn chunks_of_an_even_split() {
    let (chunk, sizes) = RenderData::split_into_equal_chunks(24, 4, 3);
    assert_eq!(chunk, 6);
    assert_eq!(sizes, vec![6, 6, 6, 6]);
}

#[test]
fn one_chunk_holds_everything() {
    let (chunk, sizes) = RenderData::split_into_equal_chunks(31, 1, 3);
    assert_eq!(chunk, 30);
    assert_eq!(sizes, vec![31]);
}

#[test]
fn more_chunks_than_multiples_leaves_all_to_the_last() {
    let (chunk, sizes) = RenderData::split_into_equal_chunks(10, 5, 3);
    assert_eq!(chunk, 0);
    assert_eq!(sizes, vec![0, 0, 0, 0, 10]);
}

#[test]
fn chunk_sizes_add_up() {
    for len in 0..60usize {
        for n in 1..9usize {
            for m in 1..7usize {
                let (chunk, sizes) = RenderData::split_into_equal_chunks(len, n, m);
                assert_eq!(chunk, m * (len / (m * n)));
                assert_eq!(sizes.len(), n);
                assert_eq!(sizes.iter().sum::<usize>(), len);
            }
        }
    }
}

#[test]
fn bands_of_an_uneven_height() {
    let data = RenderData::new(4, 10).unwrap();
    assert_eq!(data.row_bands(3), vec![(0, 3), (3, 6), (6, 10)]);
}

#[test]
fn bands_of_an_even_height() {
    let data = RenderData::new(4, 12).unwrap();
    assert_eq!(data.row_bands(4), vec![(0, 3), (3, 6), (6, 9), (9, 12)]);
}

#[test]
fn one_band_is_the_picture() {
    let data = RenderData::new(4, 10).unwrap();
    assert_eq!(data.row_bands(1), vec![(0, 10)]);
}

#[test]
fn more_bands_than_rows() {
    let data = RenderData::new(4, 2).unwrap();
    assert_eq!(data.row_bands(5), vec![(0, 0), (0, 0), (0, 0), (0, 0), (0, 2)]);
}

#[test]
fn render_slice_lays_pixels_out_row_by_row() {
    let data = RenderData::new(2, 5).unwrap();
    let mut slice = vec![0u8; 12];
    data.render_slice(&mut slice, 1, 3, &shade);
    assert_eq!(
        slice,
        vec![1, 13, 3, 8, 13, 4, 1, 24, 3, 8, 24, 5]
    );
}

#[test]
fn render_slice_leaves_the_rest_alone() {
    let data = RenderData::new(2, 5).unwrap();
    let mut slice = vec![9u8; 10];
    data.render_slice(&mut slice, 4, 5, &shade);
    assert_eq!(slice, vec![1, 46, 3, 8, 46, 7, 9, 9, 9, 9]);
}

#[test]
fn render_slice_of_no_rows_writes_nothing() {
    let data = RenderData::new(2, 5).unwrap();
    let mut slice = vec![9u8; 6];
    data.render_slice(&mut slice, 3, 3, &shade);
    assert_eq!(slice, vec![9u8; 6]);
    data.render_slice(&mut slice, 4, 2, &shade);
    assert_eq!(slice, vec![9u8; 6]);
}

#[test]
fn render_fills_every_pixel() {
    let data = RenderData::new(3, 2).unwrap();
    let array = data.render(1, &shade);
    assert_eq!(
        array,
        vec![1, 2, 3, 8, 2, 3, 15, 2, 3, 1, 13, 3, 8, 13, 4, 15, 13, 5]
    );
}

#[test]
fn render_does_not_depend_on_the_number_of_bands() {
    for (width, height) in [(1usize, 1usize), (5, 7), (3, 10), (8, 8), (2, 13)] {
        let data = RenderData::new(width, height).unwrap();
        let single = data.render(1, &shade);
        assert_eq!(single.len(), 3 * width * height);
        for thread_count in 1..20 {
            assert_eq!(data.render(thread_count, &shade), single);
        }
    }
}

#[test]
fn bands_rendered_apart_join_to_the_picture() {
    let data = RenderData::new(5, 7).unwrap();
    let single = data.render(1, &shade);
    for thread_count in 1..10 {
        let mut parts = Vec::new();
        for (start_y, end_y) in data.row_bands(thread_count) {
            let mut part = vec![0u8; 3 * data.width() * (end_y - start_y)];
            data.render_slice(&mut part, start_y, end_y, &shade);
            parts.push(part);
        }
        assert_eq!(RenderData::join_bands(&parts), single);
    }
}

#[test]
fn join_bands_keeps_the_order() {
    let parts = vec![vec![1u8, 2], vec![], vec![3u8], vec![4u8, 5, 6]];
    assert_eq!(RenderData::join_bands(&parts), vec![1, 2, 3, 4, 5, 6]);
    assert_eq!(RenderData::join_bands(&Vec::new()), Vec::<u8>::new());
}

#[test]
fn bands_follow_the_chunks_of_the_buffer() {
    let data = RenderData::new(5, 7).unwrap();
    for thread_count in 1..10usize {
        let (chunk, sizes) =
            RenderData::split_into_equal_chunks(data.buffer_len(), thread_count, 3 * data.width());
        let bands = data.row_bands(thread_count);
        assert_eq!(chunk / (3 * data.width()), 7 / thread_count);
        for (size, (start_y, end_y)) in sizes.iter().zip(bands.iter()) {
            assert_eq!(*size, 3 * data.width() * (end_y - start_y));
        }
    }
}
