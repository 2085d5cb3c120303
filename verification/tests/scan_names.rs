use photo_culler::decode::{orientation_fix, swaps_dimensions, OrientationFix};
use photo_culler::demo::{demo_set_stars, demo_toggle_reject, seed_demo, step_wrapping};
use photo_culler::model::Rating;
use photo_culler::names::{extension, file_stem, is_jpeg};
use photo_culler::scan::{
    capture_meta, capture_time, capture_time_with_source, embedded_thumbnail, exif_capture_time,
    exif_meta, has_exif, orientation_from_tag, sort_entries, thumbnail_bytes, trim, CaptureSource,
    Entry, ParsedExif,
};
use photo_culler::thumbs::jpeg_data_url;

fn parsed(text: Option<&str>, orientation: Option<u32>) -> ParsedExif {
    ParsedExif {
        datetime_original: text.map(|t| t.to_string()),
        orientation,
        buf: Vec::new(),
        thumb_offset: None,
        thumb_len: None,
    }
}

fn le16(v: &mut Vec<u8>, x: u16) {
    v.extend_from_slice(&x.to_le_bytes());
}

fn le32(v: &mut Vec<u8>, x: u32) {
    v.extend_from_slice(&x.to_le_bytes());
}

/// One IFD entry: tag, type, count, value (or offset).
fn ifd_entry(v: &mut Vec<u8>, tag: u16, typ: u16, count: u32, value: u32) {
    le16(v, tag);
    le16(v, typ);
    le32(v, count);
    le32(v, value);
}

/// A JPEG whose EXIF block holds orientation 6, DateTimeOriginal
/// "2024:05:01 12:34:56" and a 4-byte embedded thumbnail.
fn jpeg_with_exif() -> Vec<u8> {
    let mut t: Vec<u8> = vec![b'I', b'I', 0x2a, 0];
    le32(&mut t, 8);
    // IFD0 at 8: orientation, Exif IFD pointer; next IFD (IFD1) at 56.
    le16(&mut t, 2);
    ifd_entry(&mut t, 0x0112, 3, 1, 6);
    ifd_entry(&mut t, 0x8769, 4, 1, 38);
    le32(&mut t, 56);
    // Exif IFD at 38: DateTimeOriginal, 20 ASCII bytes at 86.
    le16(&mut t, 1);
    ifd_entry(&mut t, 0x9003, 2, 20, 86);
    le32(&mut t, 0);
    // IFD1 at 56: the thumbnail, 4 bytes at 106.
    le16(&mut t, 2);
    ifd_entry(&mut t, 0x0201, 4, 1, 106);
    ifd_entry(&mut t, 0x0202, 4, 1, 4);
    le32(&mut t, 0);
    t.extend_from_slice(b"2024:05:01 12:34:56\0");
    t.extend_from_slice(&[0xff, 0xd8, 0xff, 0xd9]);
    assert_eq!(t.len(), 110);
    let mut j: Vec<u8> = vec![0xff, 0xd8, 0xff, 0xe1];
    j.extend_from_slice(&((2 + 6 + t.len()) as u16).to_be_bytes());
    j.extend_from_slice(b"Exif\0\0");
    j.extend_from_slice(&t);
    j.extend_from_slice(&[0xff, 0xd9]);
    j
}

fn entry(name: &str, t: i64) -> Entry {
    Entry { name: name.to_string(), capture_time: t, orientation: 1 }
}

#[test]
fn stems_and_extensions_follow_path_rules() {
    assert_eq!(file_stem("IMG_1234.JPG").as_deref(), Some("IMG_1234"));
    assert_eq!(file_stem("photo.2.jpg").as_deref(), Some("photo.2"));
    assert_eq!(file_stem(".hidden").as_deref(), Some(".hidden"));
    assert_eq!(file_stem("noext").as_deref(), Some("noext"));
    assert_eq!(file_stem("trail.").as_deref(), Some("trail"));
    assert_eq!(file_stem("..x").as_deref(), Some("."));
    assert_eq!(file_stem("dir/a.b.c").as_deref(), Some("a.b"));
    assert_eq!(file_stem("a/."), Some("a".to_string()));
    assert_eq!(file_stem(".."), None);
    assert_eq!(file_stem(""), None);
    assert_eq!(file_stem("/"), None);
    assert_eq!(extension("x.JPEG").as_deref(), Some("JPEG"));
    assert_eq!(extension(".jpg"), None);
    assert_eq!(extension("a.b/c"), None);
}

#[test]
fn jpeg_test_ignores_ascii_case() {
    assert!(is_jpeg("/p/IMG_1.JPG"));
    assert!(is_jpeg("x.jpeg"));
    assert!(is_jpeg("x.JpEg"));
    assert!(!is_jpeg("x.png"));
    assert!(!is_jpeg(".jpg"));
    assert!(!is_jpeg("x.jpg.txt"));
    assert!(!is_jpeg("jpg"));
}

#[test]
fn sort_is_chronological_then_by_name() {
    let sorted = sort_entries(vec![
        entry("b.jpg", 20),
        entry("z.jpg", 10),
        entry("a.jpg", 20),
        entry("ab.jpg", 20),
        entry("A.jpg", 20),
    ]);
    let names: Vec<&str> = sorted.iter().map(|e| e.name.as_str()).collect();
    assert_eq!(names, vec!["z.jpg", "A.jpg", "a.jpg", "ab.jpg", "b.jpg"]);
}

#[test]
fn trim_removes_unicode_white_space() {
    assert_eq!(trim("  2024:05:01 12:34:56\n"), "2024:05:01 12:34:56");
    assert_eq!(trim("\u{3000}x y\u{a0}"), "x y");
    assert_eq!(trim(" \t "), "");
}

#[test]
fn exif_time_parses_as_utc() {
    assert_eq!(exif_capture_time("2024:05:01 12:34:56"), Some(1714566896));
    assert_eq!(exif_capture_time(" 1970:01:01 00:00:00 "), Some(0));
    assert_eq!(exif_capture_time("not a date"), None);
    assert_eq!(exif_capture_time(""), None);
}

#[test]
fn capture_time_falls_back_to_mtime_then_zero() {
    assert_eq!(capture_time(Some(5), Some(9)), 5);
    assert_eq!(capture_time(None, Some(9)), 9);
    assert_eq!(capture_time(None, None), 0);
    assert_eq!(capture_time_with_source(Some(5), None), (5, CaptureSource::Exif));
    assert_eq!(capture_time_with_source(None, Some(7)), (7, CaptureSource::Mtime));
    assert_eq!(capture_time_with_source(None, None), (0, CaptureSource::Mtime));
}

#[test]
fn capture_meta_reads_exif_fields() {
    let f = parsed(Some("2024:05:01 12:34:56"), Some(6));
    assert_eq!(capture_meta(Some(&f), Some(3)), (1714566896, 6));
    let g = parsed(Some("garbage"), None);
    assert_eq!(capture_meta(Some(&g), Some(3)), (3, 1));
    assert_eq!(capture_meta(None, None), (0, 1));
    assert_eq!(orientation_from_tag(Some(0x1_0008)), 8);
}

#[test]
fn thumbnail_slice_is_bounds_checked() {
    let buf: Vec<u8> = (0u8..10).collect();
    assert_eq!(thumbnail_bytes(&buf, Some(2), Some(3)), Some(vec![2, 3, 4]));
    assert_eq!(thumbnail_bytes(&buf, Some(8), Some(2)), Some(vec![8, 9]));
    assert_eq!(thumbnail_bytes(&buf, Some(8), Some(3)), None);
    assert_eq!(thumbnail_bytes(&buf, None, Some(3)), None);
    assert_eq!(thumbnail_bytes(&buf, Some(1), None), None);
}

#[test]
fn data_url_is_standard_base64() {
    assert_eq!(jpeg_data_url(&[0xff, 0xd8, 0xff]), "data:image/jpeg;base64,/9j/");
    assert_eq!(jpeg_data_url(b"ab"), "data:image/jpeg;base64,YWI=");
    assert_eq!(jpeg_data_url(b"hello"), "data:image/jpeg;base64,aGVsbG8=");
    assert_eq!(jpeg_data_url(&[]), "data:image/jpeg;base64,");
}

#[test]
fn orientation_tags_map_to_fixes() {
    assert_eq!(orientation_fix(1), OrientationFix::Keep);
    assert_eq!(orientation_fix(3), OrientationFix::Rotate180);
    assert_eq!(orientation_fix(6), OrientationFix::Rotate90);
    assert_eq!(orientation_fix(8), OrientationFix::Rotate270);
    assert_eq!(orientation_fix(5), OrientationFix::Rotate90FlipH);
    assert_eq!(orientation_fix(42), OrientationFix::Keep);
    assert!(swaps_dimensions(orientation_fix(6)));
    assert!(!swaps_dimensions(orientation_fix(2)));
}

#[test]
fn demo_seeding_is_deterministic() {
    let s = seed_demo(12);
    assert_eq!(s.len(), 12);
    assert_eq!(s[0], None);
    assert_eq!(s[3], Some(Rating { stars: 0, reject: true }));
    assert_eq!(s[4], Some(Rating { stars: 2, reject: false }));
    assert_eq!(s[6], Some(Rating { stars: 3, reject: false }));
    if usize::BITS == 64 {
        assert_eq!(s[8], Some(Rating { stars: 5, reject: false }));
        assert_eq!(s[9], Some(Rating { stars: 4, reject: false }));
    }
}

#[test]
fn demo_navigation_and_edits() {
    assert_eq!(step_wrapping(0, 5, false), 4);
    assert_eq!(step_wrapping(4, 5, true), 0);
    assert_eq!(step_wrapping(2, 5, true), 3);
    let mut v = vec![None, Some(Rating { stars: 2, reject: true })];
    demo_set_stars(&mut v, 1, 4);
    assert_eq!(v[1], Some(Rating { stars: 4, reject: true }));
    demo_toggle_reject(&mut v, 0);
    assert_eq!(v[0], Some(Rating { stars: 0, reject: true }));
}

#[test]
fn exif_block_is_read_from_the_bytes() {
    let jpeg = jpeg_with_exif();
    assert!(has_exif(&jpeg));
    assert_eq!(exif_meta(&jpeg, Some(3)), (1714566896, 6));
    assert_eq!(embedded_thumbnail(&jpeg), Some(vec![0xff, 0xd8, 0xff, 0xd9]));
    let junk: Vec<u8> = vec![1, 2, 3, 4];
    assert!(!has_exif(&junk));
    assert_eq!(exif_meta(&junk, Some(7)), (7, 1));
    assert_eq!(exif_meta(&junk, None), (0, 1));
    assert_eq!(embedded_thumbnail(&junk), None);
    let mut cut = jpeg.clone();
    cut.truncate(40);
    assert!(!has_exif(&cut));
}
