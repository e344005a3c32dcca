use jpeg_meta::error::Error;
use jpeg_meta::metadata::{Dimensions, ExifFields, Metadata, Orientation};

const SOI: [u8; 2] = [0xff, 0xd8];
const EOI: [u8; 2] = [0xff, 0xd9];

fn segment(kind: u8, payload: &[u8]) -> Vec<u8> {
    let wire: u16 = (payload.len() + 2) as u16;
    let mut out: Vec<u8> = vec![0xff, kind];
    out.extend_from_slice(&wire.to_be_bytes());
    out.extend_from_slice(payload);
    out
}

/// A frame header for three components: precision, height, width, and ten
/// bytes that the decoder passes over.
fn frame(kind: u8, width: u16, height: u16) -> Vec<u8> {
    let mut payload: Vec<u8> = vec![8];
    payload.extend_from_slice(&height.to_be_bytes());
    payload.extend_from_slice(&width.to_be_bytes());
    payload.extend_from_slice(&[3, 1, 0x22, 0, 2, 0x11, 1, 3, 0x11, 1]);
    segment(kind, &payload)
}

fn stream(parts: &[Vec<u8>]) -> Vec<u8> {
    let mut out: Vec<u8> = SOI.to_vec();
    for part in parts {
        out.extend_from_slice(part);
    }
    out.extend_from_slice(&EOI);
    out
}

/// A little-endian Exif payload: one directory of the given entries, then
/// the data area.
fn exif_le(entries: &[(u16, u16, u32, [u8; 4])], data: &[u8]) -> Vec<u8> {
    let mut out: Vec<u8> = b"Exif\0\0II*\0\x08\0\0\0".to_vec();
    out.extend_from_slice(&(entries.len() as u16).to_le_bytes());
    for (id, code, count, slot) in entries {
        out.extend_from_slice(&id.to_le_bytes());
        out.extend_from_slice(&code.to_le_bytes());
        out.extend_from_slice(&count.to_le_bytes());
        out.extend_from_slice(slot);
    }
    out.extend_from_slice(&[0, 0, 0, 0]);
    out.extend_from_slice(data);
    out
}

fn plain(width: u32, height: u32) -> Metadata {
    Metadata {
        dimensions: Dimensions { width, height },
        orientation: Orientation::Unspecified,
        date_time: None,
        make: None,
        model: None,
    }
}

#[test]
fn minimal_stream_has_dimensions_only() {
    let bytes = stream(&[frame(0xc0, 100, 50)]);
    assert_eq!(Metadata::load(&bytes), Ok(plain(100, 50)));
}

#[test]
fn minimal_stream_byte_for_byte() {
    let bytes: Vec<u8> = vec![
        0xff, 0xd8, 0xff, 0xc0, 0x00, 0x07, 0x08, 0x00, 0x32, 0x00, 0x64, 0xff, 0xd9,
    ];
    assert_eq!(Metadata::load(&bytes), Ok(plain(100, 50)));
}

#[test]
fn progressive_frame_gives_dimensions_too() {
    let bytes = stream(&[frame(0xc2, 0xffff, 1)]);
    assert_eq!(Metadata::load(&bytes), Ok(plain(65535, 1)));
}

#[test]
fn height_comes_before_width() {
    let bytes = stream(&[segment(0xc0, &[8, 0x01, 0x02, 0x03, 0x04])]);
    assert_eq!(Metadata::load(&bytes), Ok(plain(0x0304, 0x0102)));
}

#[test]
fn later_frame_replaces_the_dimensions() {
    let bytes = stream(&[frame(0xc0, 100, 50), frame(0xc2, 7, 9)]);
    assert_eq!(Metadata::load(&bytes), Ok(plain(7, 9)));
}

#[test]
fn exif_orientation_six_is_rotate90() {
    let exif = exif_le(&[(0x112, 3, 1, [6, 0, 0, 0])], b"");
    let bytes = stream(&[segment(0xe1, &exif), frame(0xc0, 640, 480)]);
    let mut expected = plain(640, 480);
    expected.orientation = Orientation::Rotate90;
    assert_eq!(Metadata::load(&bytes), Ok(expected));
}

#[test]
fn exif_with_every_known_field() {
    // The directory ends at 8 + 2 + 4 * 12 + 4 = 62.
    let entries = [
        (271, 2, 5, 62u32.to_le_bytes()),
        (272, 2, 7, 67u32.to_le_bytes()),
        (0x112, 3, 1, [3, 0, 0, 0]),
        (306, 2, 20, 74u32.to_le_bytes()),
    ];
    let exif = exif_le(&entries, b"ACME\0Rocket\x002015:01:02 03:04:05\0");
    let bytes = stream(&[frame(0xc0, 1, 2), segment(0xe1, &exif)]);
    assert_eq!(
        Metadata::load(&bytes),
        Ok(Metadata {
            dimensions: Dimensions { width: 1, height: 2 },
            orientation: Orientation::Rotate180,
            date_time: Some(String::from("2015:01:02 03:04:05")),
            make: Some(String::from("ACME")),
            model: Some(String::from("Rocket")),
        })
    );
}

#[test]
fn out_of_line_make_round_trips() {
    let exif = exif_le(&[(271, 2, 5, 26u32.to_le_bytes())], b"ACME\0");
    let bytes = stream(&[segment(0xe1, &exif), frame(0xc0, 10, 20)]);
    let mut expected = plain(10, 20);
    expected.make = Some(String::from("ACME"));
    assert_eq!(Metadata::load(&bytes), Ok(expected));
}

#[test]
fn corrupted_exif_identifier_is_swallowed() {
    let mut exif = exif_le(&[(0x112, 3, 1, [6, 0, 0, 0])], b"");
    exif[2] = b'j';
    let bytes = stream(&[segment(0xe1, &exif), frame(0xc0, 100, 50)]);
    assert_eq!(Metadata::load(&bytes), Ok(plain(100, 50)));
}

#[test]
fn exif_overrun_is_swallowed() {
    let exif = exif_le(&[(271, 2, 5, 10u32.to_le_bytes())], b"ACME\0");
    let bytes = stream(&[frame(0xc0, 100, 50), segment(0xe1, &exif)]);
    assert_eq!(Metadata::load(&bytes), Ok(plain(100, 50)));
}

#[test]
fn failing_accessor_discards_the_whole_exif_block() {
    // The make is sound; the orientation has the wrong datatype.
    let entries = [(0x112, 4, 1, [6, 0, 0, 0]), (271, 2, 5, 38u32.to_le_bytes())];
    let exif = exif_le(&entries, b"ACME\0");
    let bytes = stream(&[frame(0xc0, 100, 50), segment(0xe1, &exif)]);
    assert_eq!(Metadata::load(&bytes), Ok(plain(100, 50)));
}

#[test]
fn unsound_exif_keeps_what_an_earlier_block_set() {
    let first = exif_le(&[(0x112, 3, 1, [6, 0, 0, 0])], b"");
    let broken = exif_le(&[(0x112, 3, 2, [1, 0, 0, 0])], b"");
    let bytes = stream(&[segment(0xe1, &first), segment(0xe1, &broken), frame(0xc0, 3, 4)]);
    let mut expected = plain(3, 4);
    expected.orientation = Orientation::Rotate90;
    assert_eq!(Metadata::load(&bytes), Ok(expected));
}

#[test]
fn later_exif_block_overrides_field_by_field() {
    let first = exif_le(&[(0x112, 3, 1, [6, 0, 0, 0]), (271, 2, 4, *b"One\0")], b"");
    let second = exif_le(&[(271, 2, 4, *b"Two\0"), (272, 2, 2, *b"M\0\0\0")], b"");
    let bytes = stream(&[segment(0xe1, &first), frame(0xc0, 3, 4), segment(0xe1, &second)]);
    assert_eq!(
        Metadata::load(&bytes),
        Ok(Metadata {
            dimensions: Dimensions { width: 3, height: 4 },
            orientation: Orientation::Rotate90,
            date_time: None,
            make: Some(String::from("Two")),
            model: Some(String::from("M")),
        })
    );
}

#[test]
fn after_app1_applies_a_sound_payload_only() {
    let sound = exif_le(&[(0x112, 3, 1, [2, 0, 0, 0])], b"");
    let fields = ExifFields::empty().after_app1(&sound);
    assert_eq!(fields.orientation, Some(Orientation::MirrorHorizontal));
    let kept = fields.clone().after_app1(b"Exif\0\0MM");
    assert_eq!(kept, fields);
}

#[test]
fn stream_without_marker_prefix_is_eof() {
    assert_eq!(Metadata::load(&[]), Err(Error::UnexpectedEof));
    assert_eq!(Metadata::load(&[0x00, 0x01, 0xfe, 0xd9, 0xc0]), Err(Error::UnexpectedEof));
}

#[test]
fn stream_that_ends_before_end_of_image_is_eof() {
    let whole = stream(&[frame(0xc0, 100, 50)]);
    for len in 0..whole.len() - 1 {
        assert_eq!(Metadata::load(&whole[..len]), Err(Error::UnexpectedEof));
    }
    assert!(Metadata::load(&whole).is_ok());
}

#[test]
fn stream_without_frame_misses_dimensions() {
    assert_eq!(Metadata::load(&stream(&[])), Err(Error::MissingDimensions));
    assert_eq!(Metadata::load(&EOI), Err(Error::MissingDimensions));
    let exif = exif_le(&[(0x112, 3, 1, [6, 0, 0, 0])], b"");
    let bytes = stream(&[segment(0xe1, &exif), segment(0xdb, &[1, 2, 3])]);
    assert_eq!(Metadata::load(&bytes), Err(Error::MissingDimensions));
}

#[test]
fn other_segments_are_passed_over() {
    // The payloads hold bytes that would read as markers.
    let bytes = stream(&[
        segment(0xe0, b"JFIF\0\xff\xd9\xff\xc0"),
        segment(0xdb, &[0xff, 0xd9]),
        frame(0xc0, 100, 50),
        segment(0xfe, &[]),
        segment(0xc4, &[0xff, 0xc0, 0, 7, 8, 0, 1, 0, 1]),
    ]);
    assert_eq!(Metadata::load(&bytes), Ok(plain(100, 50)));
}

#[test]
fn stuffed_bytes_and_standalone_markers_are_passed_over() {
    let mut bytes: Vec<u8> = SOI.to_vec();
    bytes.extend_from_slice(&frame(0xc0, 100, 50));
    bytes.extend_from_slice(&segment(0xda, &[1, 2, 3]));
    bytes.extend_from_slice(&[0x12, 0xff, 0x00, 0x34, 0xff, 0xd0, 0x56, 0xff, 0xd7, 0xff, 0x00]);
    bytes.extend_from_slice(&EOI);
    assert_eq!(Metadata::load(&bytes), Ok(plain(100, 50)));
}

#[test]
fn bytes_after_end_of_image_are_not_read() {
    let mut bytes = stream(&[frame(0xc0, 100, 50)]);
    bytes.extend_from_slice(&[0xff, 0xc0, 0x00]);
    assert_eq!(Metadata::load(&bytes), Ok(plain(100, 50)));
}

#[test]
fn length_field_below_two_stands_for_no_payload() {
    let mut bytes: Vec<u8> = SOI.to_vec();
    bytes.extend_from_slice(&[0xff, 0xe0, 0x00, 0x00]);
    bytes.extend_from_slice(&[0xff, 0xfe, 0x00, 0x01]);
    bytes.extend_from_slice(&frame(0xc0, 100, 50));
    bytes.extend_from_slice(&EOI);
    assert_eq!(Metadata::load(&bytes), Ok(plain(100, 50)));
}

#[test]
fn short_frame_segment_still_reads_five_bytes() {
    let mut bytes: Vec<u8> = SOI.to_vec();
    bytes.extend_from_slice(&[0xff, 0xc0, 0x00, 0x02, 8, 0, 50, 0, 100]);
    bytes.extend_from_slice(&EOI);
    assert_eq!(Metadata::load(&bytes), Ok(plain(100, 50)));
    let cut: Vec<u8> = vec![0xff, 0xc0, 0x00, 0x02, 8, 0, 50, 0];
    assert_eq!(Metadata::load(&cut), Err(Error::UnexpectedEof));
}

#[test]
fn payload_that_runs_past_the_end_is_eof() {
    let mut bytes: Vec<u8> = SOI.to_vec();
    bytes.extend_from_slice(&frame(0xc0, 100, 50));
    bytes.extend_from_slice(&[0xff, 0xe1, 0x00, 0x10, 1, 2, 3]);
    assert_eq!(Metadata::load(&bytes), Err(Error::UnexpectedEof));
    let mut other: Vec<u8> = SOI.to_vec();
    other.extend_from_slice(&[0xff, 0xdb, 0xff, 0xff, 0xff, 0xd9]);
    assert_eq!(Metadata::load(&other), Err(Error::UnexpectedEof));
}

#[test]
fn crate_root_names_the_main_types() {
    let bytes = stream(&[frame(0xc0, 100, 50)]);
    let loaded: Result<jpeg_meta::Metadata, jpeg_meta::Error> = jpeg_meta::Metadata::load(&bytes);
    let metadata = loaded.unwrap();
    assert_eq!(metadata.dimensions, jpeg_meta::Dimensions { width: 100, height: 50 });
    assert_eq!(metadata.orientation, jpeg_meta::Orientation::Unspecified);
}
