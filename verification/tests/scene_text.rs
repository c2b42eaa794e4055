use raytracer::renderdata::RenderData;
use raytracer::scene_text::{
    parse_resolution, parse_usize, png_file_name, shape_layout, ShapeLayout,
};

#[test]
fn numbers_are_read_in_decimal() {
    assert_eq!(parse_usize("0"), Some(0));
    assert_eq!(parse_usize("7"), Some(7));
    assert_eq!(parse_usize("800"), Some(800));
    assert_eq!(parse_usize("0012"), Some(12));
    assert_eq!(parse_usize("+45"), Some(45));
}

#[test]
fn what_is_no_number_is_refused() {
    assert_eq!(parse_usize(""), None);
    assert_eq!(parse_usize("+"), None);
    assert_eq!(parse_usize("-3"), None);
    assert_eq!(parse_usize("++3"), None);
    assert_eq!(parse_usize("3+"), None);
    assert_eq!(parse_usize("12a"), None);
    assert_eq!(parse_usize(" 12"), None);
    assert_eq!(parse_usize("12 "), None);
    assert_eq!(parse_usize("1.5"), None);
    assert_eq!(parse_usize("١٢"), None);
}

#[test]
fn numbers_are_read_as_the_standard_library_reads_them() {
    for text in [
        "0", "1", "+1", "-1", "", "+", "00", "18446744073709551615", "18446744073709551616",
        "99999999999999999999999", "4294967295", "4294967296", "1_000", "0x10", "12é", "+0",
    ] {
        assert_eq!(parse_usize(text), text.parse::<usize>().ok());
    }
}

#[test]
fn the_largest_number_is_read_and_the_next_is_not() {
    let largest = usize::MAX.to_string();
    assert_eq!(parse_usize(&largest), Some(usize::MAX));
    let mut next = largest.clone();
    next.push('0');
    assert_eq!(parse_usize(&next), None);
}

#[test]
fn a_resolution_is_two_numbers_other_than_zero() {
    assert_eq!(parse_resolution("800", "600"), Some((800, 600)));
    assert_eq!(parse_resolution("0", "600"), None);
    assert_eq!(parse_resolution("800", "0"), None);
    assert_eq!(parse_resolution("wide", "600"), None);
    assert_eq!(parse_resolution("800", ""), None);
}

#[test]
fn read_resolution_wants_three_words() {
    assert_eq!(RenderData::read_resolution(&vec!["RES", "100", "50"]), Some((100, 50)));
    assert_eq!(RenderData::read_resolution(&vec!["RES", "100"]), None);
    assert_eq!(RenderData::read_resolution(&vec!["RES", "100", "50", "3"]), None);
    assert_eq!(RenderData::read_resolution(&Vec::new()), None);
}

#[test]
fn read_resolution_takes_white_space_off() {
    assert_eq!(RenderData::read_resolution(&vec!["RES", " 100\t", "\n50 "]), Some((100, 50)));
    assert_eq!(RenderData::read_resolution(&vec!["RES", "1 00", "50"]), None);
}

#[test]
fn read_resolution_refuses_zero_and_words() {
    assert_eq!(RenderData::read_resolution(&vec!["RES", "0", "50"]), None);
    assert_eq!(RenderData::read_resolution(&vec!["RES", "100", "0"]), None);
    assert_eq!(RenderData::read_resolution(&vec!["RES", "100", "fifty"]), None);
    assert_eq!(RenderData::read_resolution(&vec!["RES", "-100", "50"]), None);
}

#[test]
fn a_shape_line_has_sixteen_to_nineteen_words() {
    assert_eq!(shape_layout(15), None);
    assert_eq!(shape_layout(20), None);
    assert_eq!(shape_layout(0), None);
    assert_eq!(
        shape_layout(16),
        Some(ShapeLayout { rotations: 0, color_start: 6, lighting_start: 9 })
    );
    assert_eq!(
        shape_layout(17),
        Some(ShapeLayout { rotations: 1, color_start: 7, lighting_start: 10 })
    );
    assert_eq!(
        shape_layout(18),
        Some(ShapeLayout { rotations: 2, color_start: 8, lighting_start: 11 })
    );
    assert_eq!(
        shape_layout(19),
        Some(ShapeLayout { rotations: 3, color_start: 9, lighting_start: 12 })
    );
}

#[test]
fn the_png_goes_by_the_name_of_the_ppm() {
    assert_eq!(png_file_name("output.ppm"), "output.png");
    assert_eq!(png_file_name("scene"), "scene.png");
    assert_eq!(png_file_name("a.ppm.ppm"), "a.png");
    assert_eq!(png_file_name(".ppm"), ".png");
    assert_eq!(png_file_name(""), ".png");
    assert_eq!(png_file_name("ppm"), "ppm.png");
    assert_eq!(png_file_name("x.PPM"), "x.PPM.png");
    assert_eq!(png_file_name("bild.ppm.txt"), "bild.ppm.txt.png");
    assert_eq!(png_file_name("größe.ppm"), "größe.png");
}

#[test]
fn the_png_name_is_what_the_standard_library_makes() {
    for name in ["output.ppm", "a.ppm.ppm.ppm", "ppm.ppm", "x", ".ppmx", "p.pm"] {
        let expected = name.trim_end_matches(".ppm").to_string() + ".png";
        assert_eq!(png_file_name(name), expected);
    }
}
