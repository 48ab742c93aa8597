use egui_tester::error::{Error, Source, SourceKind};
use egui_tester::pixels::{expand_pixels, Frame, Layout, PixelRegion};
use egui_tester::witness::anchor::Anchor;

fn frame(red: [u8; 4]) -> Frame {
    let mut rgba = vec![0; 4 * 4 * 4];
    rgba[4 * 4..4 * 4 + 4].copy_from_slice(&red);
    Frame::new(4, 4, rgba)
}

fn source(text: &str) -> Source {
    Source { kind: SourceKind::Other, text: text.to_owned() }
}

fn fraction(moved: usize, pixels: usize) -> f64 {
    moved as f64 / pixels as f64
}

#[test]
fn regional_difference_ignores_pixels_outside_the_oracle() {
    let blank = Frame::new(4, 4, vec![0; 4 * 4 * 4]);
    let marked = frame([255, 0, 0, 255]);
    let untouched = blank
        .difference_region(&marked, PixelRegion::new(0, 0, 4, 1), 0)
        .expect("compare untouched row");
    assert_eq!(fraction(untouched.moved as usize, untouched.pixels as usize), 0.0);
    let touched = blank
        .difference_region(&marked, PixelRegion::new(0, 1, 4, 2), 0)
        .expect("compare marked row");
    assert_eq!(fraction(touched.moved as usize, touched.pixels as usize), 0.25);
}

#[test]
fn crop_clips_to_the_frame_and_preserves_rows() {
    let marked = frame([255, 0, 0, 255]);
    let crop = marked
        .crop(PixelRegion::new(-4, 1, 2, 3))
        .expect("clip and crop");
    assert_eq!((crop.width(), crop.height()), (2, 2));
    assert_eq!(&crop.rgba()[..4], &[255, 0, 0, 255]);
    assert_eq!(&crop.rgba()[4..], &[0; 12]);
}

#[test]
fn a_frame_never_differs_from_itself() {
    let marked = frame([1, 2, 3, 4]);
    let same = marked.difference(&marked, 0).expect("same frame");
    assert_eq!((same.moved, same.pixels), (0, 16));
    let other = frame([4, 2, 3, 4]);
    assert_eq!(marked.difference(&other, 2).expect("beyond the slop").moved, 1);
    assert_eq!(marked.difference(&other, 3).expect("within the slop").moved, 0);
}

#[test]
fn frames_of_other_sizes_differ_wholly_and_empty_regions_are_refused() {
    let marked = frame([1, 2, 3, 4]);
    let small = Frame::new(2, 2, vec![0; 16]);
    let whole = marked.difference(&small, 0).expect("other size");
    assert_eq!((whole.moved, whole.pixels), (1, 1));
    let part = marked
        .difference_region(&small, PixelRegion::new(0, 0, 1, 1), 0)
        .expect("other size");
    assert_eq!((part.moved, part.pixels), (1, 1));
    assert!(marked
        .difference_region(&marked, PixelRegion::new(4, 0, 9, 4), 0)
        .is_err());
    assert!(marked.crop(PixelRegion::new(4, 0, 9, 4)).is_err());
    assert!(marked.crop(PixelRegion::new(2, 2, 2, 3)).is_err());
    assert!(marked.crop(PixelRegion::new(3, 3, 1, 1)).is_err());
}

#[test]
fn anchors_cover_every_pixel_they_touch() {
    let anchor = Anchor::physical(
        "a",
        [0.5_f32, 1.0, 2.25, 3.0].map(f32::to_bits),
    )
    .expect("anchor");
    assert_eq!(PixelRegion::anchor(&anchor), PixelRegion::new(0, 1, 3, 3));
}

#[test]
fn png_round_trips_through_memory() {
    let marked = frame([200, 100, 50, 25]);
    let stream = marked
        .save_png(&b"/out.png".to_vec(), Ok(()), Ok(()))
        .expect("encode");
    assert_eq!(&stream[1..4], b"PNG");
    let loaded = Frame::load_png(&b"/out.png".to_vec(), Ok(stream)).expect("decode");
    assert_eq!((loaded.width(), loaded.height()), (4, 4));
    assert_eq!(loaded.rgba(), marked.rgba());
}

fn encode(color: png::ColorType, width: u32, height: u32, data: &[u8]) -> Vec<u8> {
    let mut stream = Vec::new();
    let mut encoder = png::Encoder::new(&mut stream, width, height);
    encoder.set_color(color);
    encoder.set_depth(png::BitDepth::Eight);
    let mut writer = encoder.write_header().expect("header");
    writer.write_image_data(data).expect("data");
    drop(writer);
    stream
}

#[test]
fn foreign_layouts_expand_to_rgba() {
    let path = b"/in.png".to_vec();
    let cases: [(png::ColorType, Vec<u8>, Vec<u8>); 3] = [
        (png::ColorType::Rgb, vec![1, 2, 3, 4, 5, 6], vec![1, 2, 3, 255, 4, 5, 6, 255]),
        (png::ColorType::Grayscale, vec![9, 8], vec![9, 9, 9, 255, 8, 8, 8, 255]),
        (png::ColorType::GrayscaleAlpha, vec![9, 7, 8, 6], vec![9, 9, 9, 7, 8, 8, 8, 6]),
    ];
    for (color, data, expected) in cases {
        let stream = encode(color, 2, 1, &data);
        let frame = Frame::load_png(&path, Ok(stream)).expect("decode");
        assert_eq!(frame.rgba(), expected.as_slice());
    }
    assert_eq!(expand_pixels(Layout::Rgba, &[1, 2, 3, 4], 1), vec![1, 2, 3, 4]);
}

#[test]
fn unreadable_and_invalid_pictures_are_reported() {
    let path = b"/in.png".to_vec();
    match Frame::load_png(&path, Err(source("gone"))) {
        Err(Error::Io { path: named, source, .. }) => {
            assert_eq!(named, path);
            assert_eq!(source.text, "gone");
        }
        other => panic!("unexpected {other:?}"),
    }
    assert!(Frame::load_png(&path, Ok(b"not a picture".to_vec())).is_err());
    let mut cut = encode(png::ColorType::Rgb, 2, 1, &[1, 2, 3, 4, 5, 6]);
    cut.truncate(40);
    assert!(Frame::load_png(&path, Ok(cut)).is_err());
    let marked = frame([1, 2, 3, 4]);
    assert!(marked
        .save_png(&path, Err((b"/".to_vec(), source("denied"))), Ok(()))
        .is_err());
    assert!(marked.save_png(&path, Ok(()), Err(source("denied"))).is_err());
}
