use photo_culler::export::{keeper_plan, xmp_for};
use photo_culler::model::Rating;
use photo_culler::namemap::NameMap;
use photo_culler::persist::ResumeConfig;
use photo_culler::scan::Entry;
use photo_culler::session::CullState;
use photo_culler::timeline::{bin_start_label, bin_timeline, timeline_computable, TlBin};

fn entry(name: &str, t: i64) -> Entry {
    Entry { name: name.to_string(), capture_time: t, orientation: 1 }
}

fn r(stars: u8, reject: bool) -> Rating {
    Rating { stars, reject }
}

#[test]
fn bins_count_images_keepers_and_reviewed() {
    let times = vec![0, 60, 720, 900, 1500, 1560];
    let ratings = vec![r(3, false), r(0, true), r(0, false), r(0, false), r(5, false), r(1, false)];
    let bins = bin_timeline(&times, &ratings, 10, 3);
    assert_eq!(
        bins,
        vec![
            TlBin { total: 2, covered: 1, handled: 2, first: Some(0) },
            TlBin { total: 2, covered: 0, handled: 0, first: Some(2) },
            TlBin { total: 2, covered: 1, handled: 2, first: Some(4) },
        ]
    );
    let five = bin_timeline(&times, &ratings, 5, 1);
    assert_eq!(five.len(), 6);
    assert_eq!(five[1], TlBin { total: 0, covered: 0, handled: 0, first: None });
    assert_eq!(five[3], TlBin { total: 1, covered: 0, handled: 0, first: Some(3) });
    assert_eq!(five[4], TlBin { total: 0, covered: 0, handled: 0, first: None });
    assert_eq!(five[5], TlBin { total: 2, covered: 2, handled: 2, first: Some(4) });
}

#[test]
fn empty_timeline_has_one_bin() {
    let bins = bin_timeline(&vec![], &vec![], 15, 3);
    assert_eq!(bins, vec![TlBin { total: 0, covered: 0, handled: 0, first: None }]);
}

#[test]
fn earlier_images_fall_in_the_last_bin() {
    let times = vec![600, 0, 1200];
    let ratings = vec![r(0, false); 3];
    let bins = bin_timeline(&times, &ratings, 5, 3);
    assert_eq!(bins.len(), 3);
    assert_eq!(bins[2].total, 2);
    assert_eq!(bins[2].first, Some(1));
}

#[test]
fn session_timeline_marks_current_bin() {
    let mut m = NameMap::new();
    m.insert("c.jpg".to_string(), r(4, false));
    let mut s = CullState::new(ResumeConfig::new());
    s.open_folder(
        "/f".to_string(),
        vec![entry("a.jpg", 1000), entry("b.jpg", 1100), entry("c.jpg", 1700)],
        m,
    );
    s.current = 2;
    let t = s.timeline();
    assert_eq!(t.start, 1000);
    assert_eq!(t.bin_sec, 600);
    assert_eq!(t.bins.len(), 2);
    assert_eq!(t.bins[1], TlBin { total: 1, covered: 1, handled: 1, first: Some(2) });
    assert_eq!(t.current_bin, Some(1));
}

#[test]
fn bin_labels_are_clock_times() {
    assert_eq!(bin_start_label(0, 1, 600), "00:10");
    assert_eq!(bin_start_label(1714566896, 0, 600), "12:34");
    assert_eq!(bin_start_label(-60, 0, 300), "23:59");
    assert_eq!(bin_start_label(86400 * 3 + 3600 * 7 + 60 * 5, 2, 900), "07:35");
    assert_eq!(bin_start_label(8_210_266_876_799, 0, 600), "23:59");
    assert_eq!(bin_start_label(8_210_266_876_800, 0, 600), "");
    assert_eq!(bin_start_label(-8_334_601_228_800, 0, 600), "00:00");
    assert_eq!(bin_start_label(-8_334_601_228_801, 0, 600), "");
}

#[test]
fn xmp_carries_the_rating() {
    let x = xmp_for(4);
    assert!(x.starts_with("<?xml version=\"1.0\" encoding=\"UTF-8\"?>\n"));
    assert!(x.contains("   <xmp:Rating>4</xmp:Rating>\n"));
    assert!(x.ends_with("</x:xmpmeta>\n"));
    assert!(xmp_for(123).contains("<xmp:Rating>123</xmp:Rating>"));
    assert!(xmp_for(0).contains("<xmp:Rating>0</xmp:Rating>"));
}

#[test]
fn keeper_plan_lists_stems_at_or_above_threshold() {
    let mut m = NameMap::new();
    m.insert("IMG_1234.JPG".to_string(), r(4, false));
    m.insert("photo.2.jpg".to_string(), r(3, false));
    m.insert("low.jpg".to_string(), r(2, false));
    m.insert(".hidden".to_string(), r(5, false));
    let entries = vec![
        entry("IMG_1234.JPG", 0),
        entry("low.jpg", 1),
        entry("photo.2.jpg", 2),
        entry("unrated.jpg", 3),
        entry(".hidden", 4),
    ];
    let plan = keeper_plan(&entries, &m, 3);
    assert_eq!(plan.list, "IMG_1234\nphoto.2\n.hidden\n");
    let names: Vec<&str> = plan.sidecars.iter().map(|s| s.file_name.as_str()).collect();
    assert_eq!(names, vec!["IMG_1234.xmp", "photo.2.xmp", ".hidden.xmp"]);
    assert_eq!(plan.sidecars[0].contents, xmp_for(4));
    assert_eq!(plan.sidecars[2].contents, xmp_for(5));
}

#[test]
fn threshold_zero_keeps_everything() {
    let plan = keeper_plan(&vec![entry("a.jpg", 0), entry("b", 1)], &NameMap::new(), 0);
    assert_eq!(plan.list, "a\nb\n");
    assert_eq!(plan.sidecars.len(), 2);
    assert_eq!(plan.sidecars[0].contents, xmp_for(0));
}

#[test]
fn timeline_guard_matches_what_binning_needs() {
    let times = vec![0i64, 60, 900];
    let ratings = vec![r(0, false), r(3, false), r(1, false)];
    assert!(timeline_computable(&times, &ratings, 10, 3));
    assert!(!timeline_computable(&times, &ratings, 0, 3));
    assert!(!timeline_computable(&times, &ratings[..2].to_vec(), 10, 3));
    assert!(!timeline_computable(&times, &ratings, i64::MAX / 30, 3));
    assert!(!timeline_computable(&vec![i64::MIN, i64::MAX], &vec![r(0, false), r(0, false)], 10, 3));
    assert!(timeline_computable(&vec![], &vec![], 5, 3));
}
