use tile_server::tile::{Tile, MAX_ZOOM};
use tile_server::tile_path::{extract_tile_from_path, format_tile_path};

#[test]
fn plain_tile_path_parses() {
    let r = extract_tile_from_path(b"/5/10/12.png");
    assert_eq!(r, Some(Tile { zoom: 5, x: 10, y: 12 }));
}

#[test]
fn query_string_ignored() {
    let r = extract_tile_from_path(b"/5/10/12.png?layer=base");
    assert_eq!(r, Some(Tile { zoom: 5, x: 10, y: 12 }));
}

#[test]
fn zoom_above_max_yields_no_match() {
    let path = format!("/{}/10/12.png", MAX_ZOOM as u32 + 1);
    assert_eq!(extract_tile_from_path(path.as_bytes()), None);
}

#[test]
fn max_zoom_still_matches() {
    let path = format!("/{}/10/12.png", MAX_ZOOM as u32);
    assert_eq!(
        extract_tile_from_path(path.as_bytes()),
        Some(Tile { zoom: MAX_ZOOM, x: 10, y: 12 })
    );
}

#[test]
fn non_numeric_segments_yield_no_match() {
    assert_eq!(extract_tile_from_path(b"/a/b/c.png"), None);
}

#[test]
fn two_segments_yield_no_match() {
    assert_eq!(extract_tile_from_path(b"/10/20.png"), None);
}

#[test]
fn empty_path_yields_no_match() {
    assert_eq!(extract_tile_from_path(b""), None);
}

#[test]
fn longer_prefix_keeps_last_three_segments() {
    let r = extract_tile_from_path(b"/tiles/5/10/12.png");
    assert_eq!(r, Some(Tile { zoom: 5, x: 10, y: 12 }));
}

#[test]
fn empty_middle_segment_yields_no_match() {
    // Only two non-empty segments remain once the empty one is dropped.
    assert_eq!(extract_tile_from_path(b"/5//12.png"), None);
}

#[test]
fn empty_segments_are_skipped() {
    // Segments are counted from the right, non-empty ones only.
    let r = extract_tile_from_path(b"/5/10//12.png");
    assert_eq!(r, Some(Tile { zoom: 5, x: 10, y: 12 }));
}

#[test]
fn leading_zeros_accepted() {
    let r = extract_tile_from_path(b"/05/010/012.png");
    assert_eq!(r, Some(Tile { zoom: 5, x: 10, y: 12 }));
}

#[test]
fn missing_png_suffix_still_matches() {
    let r = extract_tile_from_path(b"/5/10/12");
    assert_eq!(r, Some(Tile { zoom: 5, x: 10, y: 12 }));
}

#[test]
fn doubled_png_suffix_yields_no_match() {
    // Only one trailing `.png` comes off; `12.png` is not a number.
    assert_eq!(extract_tile_from_path(b"/5/10/12.png.png"), None);
}

#[test]
fn coordinate_over_u32_yields_no_match() {
    assert_eq!(extract_tile_from_path(b"/5/4294967296/12.png"), None);
    assert_eq!(extract_tile_from_path(b"/5/4294967295/12.png"),
        Some(Tile { zoom: 5, x: u32::MAX, y: 12 }));
}

#[test]
fn format_writes_canonical_path() {
    let t = Tile { zoom: 5, x: 10, y: 12 };
    assert_eq!(format_tile_path(&t), b"/5/10/12.png".to_vec());
}

#[test]
fn format_then_parse_round_trip() {
    let samples = [
        Tile { zoom: 0, x: 0, y: 0 },
        Tile { zoom: 5, x: 10, y: 12 },
        Tile { zoom: MAX_ZOOM, x: u32::MAX, y: 1 },
        Tile { zoom: 7, x: 0, y: 127 },
        Tile { zoom: 18, x: 262143, y: 262143 },
    ];
    for t in samples {
        let path = format_tile_path(&t);
        assert_eq!(extract_tile_from_path(path.as_slice()), Some(t));
    }
}
