use pixel_text::color::Rgb16;
use pixel_text::transcode::{image_to_content, ColorFormat, PixelGrid, TranscodeError};

fn rgb(r: u16, g: u16, b: u16) -> Rgb16 {
    Rgb16 { r, g, b }
}

#[test]
fn two_by_one_scenario() {
    let grid = PixelGrid {
        width: 2,
        height: 1,
        format: ColorFormat::Rgb16,
        pixels: vec![rgb(65535, 0, 0), rgb(0, 65535, 0)],
    };
    let content = image_to_content(&grid).unwrap();
    assert_eq!(content.text, "\u{25a0} \u{25a0} \n");
    assert_eq!(content.formatting.len(), 2);
    assert_eq!(content.formatting[0].start, 0);
    assert_eq!(content.formatting[0].end, 2);
    assert_eq!(content.formatting[0].hex, "#ff0000");
    assert_eq!(content.formatting[1].start, 2);
    assert_eq!(content.formatting[1].end, 4);
    assert_eq!(content.formatting[1].hex, "#00ff00");
}

#[test]
fn one_by_two_scenario() {
    let grid = PixelGrid {
        width: 1,
        height: 2,
        format: ColorFormat::Rgb16,
        pixels: vec![rgb(0, 0, 65535), rgb(65535, 65535, 65535)],
    };
    let content = image_to_content(&grid).unwrap();
    assert_eq!(content.text, "\u{25a0} \n\u{25a0} \n");
    assert_eq!(content.formatting.len(), 2);
    assert_eq!(content.formatting[0].start, 0);
    assert_eq!(content.formatting[0].end, 2);
    assert_eq!(content.formatting[0].hex, "#0000ff");
    // the offset jumps from 2 to 3 across the row boundary
    assert_eq!(content.formatting[1].start, 3);
    assert_eq!(content.formatting[1].end, 5);
    assert_eq!(content.formatting[1].hex, "#ffffff");
}

#[test]
fn text_length_and_range_count() {
    let grid = PixelGrid {
        width: 3,
        height: 4,
        format: ColorFormat::Rgb16,
        pixels: vec![rgb(0, 0, 0); 12],
    };
    let content = image_to_content(&grid).unwrap();
    assert_eq!(content.text.chars().count(), 4 * (3 * 2 + 1));
    assert_eq!(content.formatting.len(), 12);
}

#[test]
fn ranges_abut_except_at_row_boundaries() {
    let width = 3;
    let height = 2;
    let grid = PixelGrid {
        width,
        height,
        format: ColorFormat::Rgb16,
        pixels: vec![rgb(1000, 2000, 3000); 6],
    };
    let content = image_to_content(&grid).unwrap();
    for k in 0..content.formatting.len() {
        let r = &content.formatting[k];
        assert_eq!(r.end, r.start + 2);
        if k + 1 < content.formatting.len() {
            let next = &content.formatting[k + 1];
            if (k + 1) % width == 0 {
                assert_eq!(next.start, r.end + 1);
            } else {
                assert_eq!(next.start, r.end);
            }
        }
    }
    assert_eq!(content.formatting[2].end, 6);
    assert_eq!(content.formatting[3].start, 7);
}

#[test]
fn channel_truncation() {
    let grid = PixelGrid {
        width: 2,
        height: 1,
        format: ColorFormat::Rgb16,
        pixels: vec![rgb(65535, 256, 511), rgb(0, 255, 257)],
    };
    let content = image_to_content(&grid).unwrap();
    // 65535 -> 0xff, 256 -> 0x01, 511 -> 0x01 (truncating division by 256)
    assert_eq!(content.formatting[0].hex, "#ff0101");
    // 0 -> 0x00, 255 -> 0x00, 257 -> 0x01
    assert_eq!(content.formatting[1].hex, "#000001");
}

#[test]
fn zero_height_yields_empty_output() {
    let grid = PixelGrid { width: 5, height: 0, format: ColorFormat::Rgb16, pixels: vec![] };
    let content = image_to_content(&grid).unwrap();
    assert_eq!(content.text, "");
    assert!(content.formatting.is_empty());
}

#[test]
fn zero_width_yields_no_ranges() {
    let grid = PixelGrid { width: 0, height: 2, format: ColorFormat::Rgb16, pixels: vec![] };
    let content = image_to_content(&grid).unwrap();
    // each of the two rows still ends in its line terminator
    assert_eq!(content.text, "\n\n");
    assert!(content.formatting.is_empty());
}

#[test]
fn short_buffer_is_out_of_bounds() {
    let grid = PixelGrid {
        width: 2,
        height: 2,
        format: ColorFormat::Rgb16,
        pixels: vec![rgb(1, 2, 3); 3],
    };
    let result = image_to_content(&grid);
    assert_eq!(result.unwrap_err(), TranscodeError::OutOfBounds);
}

#[test]
fn empty_buffer_is_out_of_bounds() {
    let grid = PixelGrid { width: 1, height: 1, format: ColorFormat::Rgb16, pixels: vec![] };
    let result = image_to_content(&grid);
    assert_eq!(result.unwrap_err(), TranscodeError::OutOfBounds);
}

#[test]
fn non_rgb16_format_is_unsupported() {
    for format in [
        ColorFormat::Rgb8,
        ColorFormat::Rgba8,
        ColorFormat::Rgba16,
        ColorFormat::Gray8,
        ColorFormat::Gray16,
        ColorFormat::GrayAlpha8,
        ColorFormat::GrayAlpha16,
    ] {
        let grid = PixelGrid { width: 1, height: 1, format, pixels: vec![rgb(9, 9, 9)] };
        let result = image_to_content(&grid);
        assert_eq!(result.unwrap_err(), TranscodeError::UnsupportedFormat);
    }
}
