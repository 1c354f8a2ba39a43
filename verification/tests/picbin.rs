use picbin::PicbinError;
use picbin::canvas::Canvas;
use picbin::canvas::decode;
use picbin::canvas::encode;
use picbin::chart::render_chart;
use picbin::color::Color;
use picbin::color::byte_to_color;
use picbin::color::color_to_byte;
use picbin::dims::MAX_AREA;
use picbin::dims::dimensions;

use std::collections::HashSet;

#[test]
fn test_dimensions() {
    assert!(dimensions(0).is_ok());
    assert!(dimensions((u32::MAX as u64) * (u32::MAX as u64)).is_ok());
    assert!(dimensions((u32::MAX as u64) * (u32::MAX as u64) + 1).is_err());
}

#[test]
fn unique_color_mapping() {
    let mut set = HashSet::new();
    for i in u8::MIN..=u8::MAX {
        set.insert(byte_to_color(i));
    }
    assert_eq!(set.len(), 256);
}

#[test]
fn dimensions_exact_values() {
    assert_eq!(dimensions(0).unwrap(), (1, 1));
    assert_eq!(dimensions(1).unwrap(), (1, 1));
    assert_eq!(dimensions(4).unwrap(), (2, 2));
    assert_eq!(dimensions(5).unwrap(), (3, 2));
    assert_eq!(dimensions(16).unwrap(), (4, 4));
    assert_eq!(dimensions(17).unwrap(), (5, 4));
    assert_eq!(dimensions(MAX_AREA).unwrap(), (u32::MAX, u32::MAX));
}

#[test]
fn dimensions_too_large_error() {
    assert_eq!(
        dimensions(MAX_AREA + 1),
        Err(PicbinError::FileSizeTooLarge)
    );
    assert_eq!(dimensions(u64::MAX), Err(PicbinError::FileSizeTooLarge));
}

#[test]
fn dimensions_hold_all_bytes() {
    for n in [1u64, 2, 3, 5, 7, 12, 99, 100, 101, 4096, 65537] {
        let (w, h) = dimensions(n).unwrap();
        assert!(w as u64 * h as u64 >= n, "{}x{} cannot hold {}", w, h, n);
    }
}

#[test]
fn color_mapping_exact_values() {
    assert_eq!(byte_to_color(0), Color { r: 255, g: 0, b: 0 });
    assert_eq!(byte_to_color(1), Color { r: 255, g: 4, b: 0 });
    assert_eq!(byte_to_color(42), Color { r: 255, g: 179, b: 0 });
    assert_eq!(byte_to_color(43), Color { r: 72, g: 255, b: 0 });
    assert_eq!(byte_to_color(255), Color { r: 255, g: 0, b: 191 });
}

#[test]
fn inverse_mapping_round_trips_every_byte() {
    for b in u8::MIN..=u8::MAX {
        assert_eq!(color_to_byte(byte_to_color(b)), Some(b));
    }
}

#[test]
fn inverse_mapping_rejects_padding_color() {
    assert_eq!(color_to_byte(Color { r: 0, g: 0, b: 0 }), None);
    assert_eq!(color_to_byte(Color { r: 255, g: 255, b: 255 }), None);
}

#[test]
fn round_trip_exact_square() {
    let bytes = vec![1u8, 2, 3, 4];
    let canvas = encode(&bytes).unwrap();
    assert_eq!(canvas.width, 2);
    assert_eq!(canvas.height, 2);
    assert_eq!(canvas.pixels.len(), 4);
    assert_eq!(decode(&canvas), bytes);
}

#[test]
fn round_trip_with_padding() {
    let bytes = vec![10u8, 20, 30, 40, 50];
    let canvas = encode(&bytes).unwrap();
    assert_eq!(canvas.width, 3);
    assert_eq!(canvas.height, 2);
    assert_eq!(canvas.pixels.len(), 6);
    assert_eq!(canvas.pixels[5], Color { r: 0, g: 0, b: 0 });
    assert_eq!(decode(&canvas), bytes);
}

#[test]
fn round_trip_empty_input() {
    let bytes: Vec<u8> = vec![];
    let canvas = encode(&bytes).unwrap();
    assert_eq!(canvas.width, 1);
    assert_eq!(canvas.height, 1);
    assert_eq!(canvas.pixels, vec![Color { r: 0, g: 0, b: 0 }]);
    assert_eq!(decode(&canvas), bytes);
}

#[test]
fn round_trip_all_byte_values() {
    let bytes: Vec<u8> = (u8::MIN..=u8::MAX).collect();
    let canvas = encode(&bytes).unwrap();
    assert_eq!(canvas.width, 16);
    assert_eq!(canvas.height, 16);
    assert_eq!(decode(&canvas), bytes);
}

#[test]
fn decode_skips_unmapped_colors() {
    let white = Color { r: 255, g: 255, b: 255 };
    let canvas = Canvas {
        width: 3,
        height: 1,
        pixels: vec![white, byte_to_color(65), white],
    };
    assert_eq!(decode(&canvas), vec![65u8]);
}

#[test]
fn chart_layout() {
    let chart = render_chart();
    assert!(chart.starts_with("#FF0000"));
    let lines: Vec<&str> = chart.lines().collect();
    assert_eq!(lines.len(), 16);
    let mut entries = 0;
    for line in lines {
        let cells: Vec<&str> = line.split(' ').collect();
        assert_eq!(cells.len(), 16);
        for cell in cells {
            assert_eq!(cell.len(), 7);
            assert!(cell.starts_with('#'));
            entries += 1;
        }
    }
    assert_eq!(entries, 256);
}

#[test]
fn chart_matches_mapping() {
    let chart = render_chart();
    let entries: Vec<&str> = chart.split_whitespace().collect();
    assert_eq!(entries.len(), 256);
    for (i, entry) in entries.iter().enumerate() {
        let c = byte_to_color(i as u8);
        assert_eq!(*entry, format!("#{:02X}{:02X}{:02X}", c.r, c.g, c.b));
    }
}
