use raytracer::encode::{png_result, EncodeError};
use raytracer::renderdata::RenderData;

#[test]
fn ppm_is_header_and_pixels() {
    let data = RenderData::new(2, 1).unwrap();
    let pixels = vec![1u8, 2, 3, 250, 251, 252];
    let file = data.encode_ppm(&pixels).unwrap();
    let mut expected = b"P6\n2 1 255\n".to_vec();
    expected.extend_from_slice(&pixels);
    assert_eq!(file, expected);
}

#[test]
fn ppm_header_writes_sizes_in_decimal() {
    let data = RenderData::new(120, 3).unwrap();
    let pixels = vec![0u8; 3 * 120 * 3];
    let file = data.encode_ppm(&pixels).unwrap();
    assert_eq!(&file[..13], b"P6\n120 3 255\n");
    assert_eq!(file.len(), 13 + pixels.len());
}

#[test]
fn png_decodes_to_the_pixels() {
    let data = RenderData::new(3, 2).unwrap();
    let pixels: Vec<u8> = (0..18u8).map(|i| i * 13).collect();
    let file = data.encode_png(&pixels).unwrap();
    assert_eq!(&file[..8], &[0x89, b'P', b'N', b'G', 0x0d, 0x0a, 0x1a, 0x0a]);
    assert_ne!(file, pixels);
    let decoded = image::load_from_memory(&file).unwrap().into_rgb8();
    assert_eq!(decoded.width(), 3);
    assert_eq!(decoded.height(), 2);
    assert_eq!(decoded.into_raw(), pixels);
}

#[test]
fn png_is_the_same_each_time() {
    let data = RenderData::new(4, 4).unwrap();
    let pixels: Vec<u8> = (0..48u8).collect();
    assert_eq!(data.encode_png(&pixels), data.encode_png(&pixels));
}

#[test]
fn a_buffer_of_another_size_is_refused() {
    let data = RenderData::new(2, 2).unwrap();
    assert_eq!(data.encode_ppm(&vec![0u8; 11]), Err(EncodeError::BufferSize));
    assert_eq!(data.encode_ppm(&vec![0u8; 13]), Err(EncodeError::BufferSize));
    assert_eq!(data.encode_png(&vec![0u8; 11]), Err(EncodeError::BufferSize));
    assert_eq!(data.encode_png(&Vec::new()), Err(EncodeError::BufferSize));
}

#[test]
fn a_raster_too_wide_for_a_file_is_refused() {
    if let Some(data) = RenderData::new(u32::MAX as usize + 1, 1) {
        assert_eq!(data.encode_ppm(&Vec::new()), Err(EncodeError::Dimensions));
        assert_eq!(data.encode_png(&Vec::new()), Err(EncodeError::Dimensions));
        assert_eq!(data.check_encodable(0), Err(EncodeError::Dimensions));
    }
}

#[test]
fn check_encodable_gives_the_sizes() {
    let data = RenderData::new(7, 9).unwrap();
    assert_eq!(data.check_encodable(189), Ok((7, 9)));
    assert_eq!(data.check_encodable(188), Err(EncodeError::BufferSize));
}

#[test]
fn png_result_names_the_failure() {
    assert_eq!(png_result(None), Err(EncodeError::Encoding));
    assert_eq!(png_result(Some(vec![1, 2, 3])), Ok(vec![1, 2, 3]));
}
