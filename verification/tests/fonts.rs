//! The font loader against hand-built font dictionaries, and the pixel
//! kernels.

use rasterizer::error::Error;
use rasterizer::fx::FX_ONE;
use rasterizer::object::{Dict, Document, FromPDF, Obj};
use rasterizer::pixels::{diff_stats, padded_bytes_per_row, unpad_rows};
use rasterizer::text::font::{assemble_font_map, font_sources, FaceData, FontSource};

const ONE: i64 = FX_ONE;

fn dict(entries: Vec<(&str, Obj)>) -> Dict {
    Dict { entries: entries.into_iter().map(|(k, v)| (k.to_string(), v)).collect() }
}

/// A document holding one CID font: the font dictionary itself is handed to
/// the loader as an object, the descendant (2), descriptor (3) and program
/// stream (4) live in the object store.
fn font_doc(widths_entry: Obj) -> (Document, Obj) {
    let descendant = dict(vec![
        ("FontDescriptor", Obj::Reference((3, 0))),
        ("W", widths_entry),
    ]);
    let descriptor = dict(vec![
        ("FontFile2", Obj::Reference((4, 0))),
        ("FontName", Obj::Name("TestFont".to_string())),
    ]);
    let doc = Document {
        objects: vec![
            ((2, 0), Obj::Dict(descendant)),
            ((3, 0), Obj::Dict(descriptor)),
            ((4, 0), Obj::Stream(vec![1, 2, 3])),
        ],
        pages: vec![],
        page_fonts: vec![],
        page_contents: vec![],
    };
    let font_dict = Obj::Dict(dict(vec![(
        "DescendantFonts",
        Obj::Array(vec![Obj::Reference((2, 0))]),
    )]));
    (doc, font_dict)
}

fn good_widths() -> Obj {
    Obj::Array(vec![
        Obj::Integer(0),
        Obj::Array(vec![Obj::Integer(500), Obj::Integer(600)]),
    ])
}

#[test]
fn font_loads_name_widths_and_program() {
    let (doc, font_dict) = font_doc(good_widths());
    let src = FontSource::from_pdf(&doc, &font_dict).expect("font should load");
    assert_eq!(src.name, "TestFont");
    assert_eq!(src.widths, vec![500 * ONE, 600 * ONE]);
    assert_eq!(src.font_file, vec![1, 2, 3]);
}

#[test]
fn widths_must_start_at_zero() {
    let widths = Obj::Array(vec![
        Obj::Integer(1),
        Obj::Array(vec![Obj::Integer(500)]),
    ]);
    let (doc, font_dict) = font_doc(widths);
    assert!(matches!(
        FontSource::from_pdf(&doc, &font_dict),
        Err(Error::UnsupportedWidths)
    ));
}

#[test]
fn widths_must_be_numbers() {
    let widths = Obj::Array(vec![
        Obj::Integer(0),
        Obj::Array(vec![Obj::Name("x".to_string())]),
    ]);
    let (doc, font_dict) = font_doc(widths);
    assert!(matches!(
        FontSource::from_pdf(&doc, &font_dict),
        Err(Error::UnsupportedWidths)
    ));
}

#[test]
fn two_descendants_are_rejected() {
    let (doc, _) = font_doc(good_widths());
    let font_dict = Obj::Dict(dict(vec![(
        "DescendantFonts",
        Obj::Array(vec![Obj::Reference((2, 0)), Obj::Reference((2, 0))]),
    )]));
    assert!(matches!(
        FontSource::from_pdf(&doc, &font_dict),
        Err(Error::BadFont)
    ));
}

#[test]
fn missing_font_file_is_bad_font() {
    let (mut doc, font_dict) = font_doc(good_widths());
    doc.objects[1] = (
        (3, 0),
        Obj::Dict(dict(vec![("FontName", Obj::Name("TestFont".to_string()))])),
    );
    assert!(matches!(
        FontSource::from_pdf(&doc, &font_dict),
        Err(Error::BadFont)
    ));
}

#[test]
fn font_sources_skips_fonts_that_fail() {
    let (mut doc, good) = font_doc(good_widths());
    let bad = Obj::Dict(dict(vec![("DescendantFonts", Obj::Array(vec![]))]));
    doc.pages = vec![(1, (1, 0))];
    doc.page_fonts = vec![(1, vec![("F0".to_string(), good), ("F1".to_string(), bad)])];
    let sources = font_sources(&doc, 1).expect("page exists");
    assert_eq!(sources.len(), 1);
    assert_eq!(sources[0].0, "F0");
    assert_eq!(sources[0].1.name, "TestFont");
}

#[test]
fn assemble_drops_fonts_without_a_face() {
    let (doc, font_dict) = font_doc(good_widths());
    let src0 = FontSource::from_pdf(&doc, &font_dict).expect("font should load");
    let src1 = FontSource::from_pdf(&doc, &font_dict).expect("font should load");
    let face = FaceData { units_per_em: 1000, glyphs: vec![None, None] };
    let items = vec![
        ("F0".to_string(), src0, Some(face)),
        ("F1".to_string(), src1, None),
    ];
    let map = assemble_font_map(&items);
    assert_eq!(map.len(), 1);
    assert_eq!(map[0].0, "F0");
    assert_eq!(map[0].1.name, "TestFont");
    assert_eq!(map[0].1.units_per_em, 1000);
    assert_eq!(map[0].1.widths, vec![500 * ONE, 600 * ONE]);
}

#[test]
fn rows_are_padded_to_256_bytes() {
    assert_eq!(padded_bytes_per_row(100), 512);
    assert_eq!(padded_bytes_per_row(64), 256);
    assert_eq!(padded_bytes_per_row(0), 0);
}

#[test]
fn unpad_keeps_each_rows_prefix() {
    // two rows of two pixels, padded to 16 bytes per row
    let mut data: Vec<u8> = Vec::new();
    for row in 0..2u8 {
        for j in 0..16u8 {
            data.push(row * 100 + j);
        }
    }
    let out = unpad_rows(&data, 2, 2, 16);
    assert_eq!(out.len(), 16);
    assert_eq!(&out[0..8], &[0, 1, 2, 3, 4, 5, 6, 7]);
    assert_eq!(&out[8..16], &[100, 101, 102, 103, 104, 105, 106, 107]);
}

#[test]
fn diff_stats_measures_channel_differences() {
    // two pixels: equal, and one differing by 90 in green
    let a: Vec<u8> = vec![10, 20, 30, 255, 50, 140, 70, 255];
    let b: Vec<u8> = vec![10, 20, 30, 255, 50, 50, 70, 0];
    let (img, total, max, count) = diff_stats(&a, &b);
    // alpha differences are not compared
    assert_eq!(total, 90);
    assert_eq!(max, 90);
    assert_eq!(count, 1);
    // the visualisation triples and clamps the difference, opaque
    assert_eq!(img, vec![0, 0, 0, 255, 255, 255, 255, 255]);
}

#[test]
fn diff_stats_on_identical_images() {
    let a: Vec<u8> = vec![1, 2, 3, 4];
    let b: Vec<u8> = vec![1, 2, 3, 4];
    let (img, total, max, count) = diff_stats(&a, &b);
    assert_eq!((total, max, count), (0, 0, 0));
    assert_eq!(img, vec![0, 0, 0, 255]);
}
