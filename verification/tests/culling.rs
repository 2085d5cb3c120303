use photo_culler::messages::{bin_tooltip_text, copied_text, export_failed_text, exported_text};
use photo_culler::requests::Requests;
use photo_culler::timeline::TlBin;
use photo_culler::model::{passes, Rating, RejectFilter, StarFilterMode, View};
use photo_culler::namemap::NameMap;
use photo_culler::persist::{prune, ratings_from_sidecar, ResumeConfig, Sidecar};
use photo_culler::scan::Entry;
use photo_culler::session::{save_step, window_plan, CullState, KeyPresses, Notice, SaveStep};

fn entry(name: &str, t: i64) -> Entry {
    Entry { name: name.to_string(), capture_time: t, orientation: 1 }
}

fn r(stars: u8, reject: bool) -> Rating {
    Rating { stars, reject }
}

fn no_keys() -> KeyPresses {
    KeyPresses {
        quit: false,
        copy: false,
        bin_left: false,
        bin_right: false,
        help: false,
        esc: false,
        left: false,
        right: false,
        next_unrated: false,
        shift: false,
        set_star: None,
        toggle_reject: false,
        zoom: false,
        grid: false,
        loupe: false,
    }
}

/// Six images over three 10-minute bins: a,b at 0-1 min, c,d at 12-15 min,
/// e,f at 25-26 min.
fn session(ratings: &[(&str, Rating)]) -> CullState {
    let mut m = NameMap::new();
    for (n, rt) in ratings {
        m.insert(n.to_string(), *rt);
    }
    let entries = vec![
        entry("a.jpg", 0),
        entry("b.jpg", 60),
        entry("c.jpg", 720),
        entry("d.jpg", 900),
        entry("e.jpg", 1500),
        entry("f.jpg", 1560),
    ];
    let mut s = CullState::new(ResumeConfig::new());
    s.open_folder("/shoot".to_string(), entries, m);
    s
}

#[test]
fn handled_means_rated_or_rejected() {
    assert!(!r(0, false).handled());
    assert!(r(1, false).handled());
    assert!(r(0, true).handled());
}

#[test]
fn filter_modes_and_reject_filter() {
    let four = r(4, false);
    assert!(passes(Some(&four), 3, StarFilterMode::Gte, RejectFilter::All));
    assert!(!passes(Some(&four), 5, StarFilterMode::Gte, RejectFilter::All));
    assert!(passes(Some(&four), 4, StarFilterMode::Eq, RejectFilter::All));
    assert!(!passes(Some(&four), 3, StarFilterMode::Eq, RejectFilter::All));
    assert!(passes(Some(&four), 5, StarFilterMode::Lt, RejectFilter::All));
    assert!(!passes(Some(&four), 4, StarFilterMode::Lt, RejectFilter::All));
    let rej = r(2, true);
    assert!(!passes(Some(&rej), 0, StarFilterMode::Gte, RejectFilter::Hide));
    assert!(passes(Some(&rej), 0, StarFilterMode::Gte, RejectFilter::Only));
    assert!(!passes(Some(&four), 0, StarFilterMode::Gte, RejectFilter::Only));
}

#[test]
fn unrated_counts_as_zero_stars_not_rejected() {
    assert!(passes(None, 0, StarFilterMode::Gte, RejectFilter::Hide));
    assert!(!passes(None, 1, StarFilterMode::Gte, RejectFilter::All));
    assert!(passes(None, 0, StarFilterMode::Eq, RejectFilter::All));
    assert!(!passes(None, 0, StarFilterMode::Gte, RejectFilter::Only));
}

#[test]
fn name_map_reads_back_what_was_written() {
    let mut m: NameMap<Rating> = NameMap::new();
    m.insert("IMG_1.JPG".to_string(), r(3, false));
    m.insert("IMG_2.JPG".to_string(), r(0, true));
    m.insert("IMG_1.JPG".to_string(), r(5, false));
    assert_eq!(m.len(), 2);
    assert_eq!(m.get(&"IMG_1.JPG".to_string()), Some(&r(5, false)));
    assert_eq!(m.get(&"IMG_2.JPG".to_string()), Some(&r(0, true)));
    assert_eq!(m.get(&"IMG_3.JPG".to_string()), None);
}

#[test]
fn from_pairs_last_one_wins() {
    let m = NameMap::from_pairs(vec![
        ("x".to_string(), r(1, false)),
        ("y".to_string(), r(2, false)),
        ("x".to_string(), r(4, true)),
    ]);
    assert_eq!(m.len(), 2);
    assert_eq!(m.get(&"x".to_string()), Some(&r(4, true)));
}

#[test]
fn prune_drops_blank_ratings_only() {
    let mut m: NameMap<Rating> = NameMap::new();
    m.insert("keep.jpg".to_string(), r(2, false));
    m.insert("blank.jpg".to_string(), r(0, false));
    m.insert("rej.jpg".to_string(), r(0, true));
    let p = prune(&m);
    assert_eq!(p.len(), 2);
    assert_eq!(p.get(&"keep.jpg".to_string()), Some(&r(2, false)));
    assert_eq!(p.get(&"rej.jpg".to_string()), Some(&r(0, true)));
    assert_eq!(p.get(&"blank.jpg".to_string()), None);
}

#[test]
fn sidecar_for_save_is_version_one_and_pruned() {
    let mut m: NameMap<Rating> = NameMap::new();
    m.insert("a".to_string(), r(0, false));
    m.insert("b".to_string(), r(3, false));
    let s = Sidecar::for_save(&m);
    assert_eq!(s.version, 1);
    assert_eq!(s.files.len(), 1);
    let back = ratings_from_sidecar(Some(s));
    assert_eq!(back.get(&"b".to_string()), Some(&r(3, false)));
    assert_eq!(ratings_from_sidecar(None).len(), 0);
}

#[test]
fn remember_records_folder_and_image() {
    let mut c = ResumeConfig::new();
    c.remember("/shoot", "IMG_9.JPG");
    assert_eq!(c.last_folder.as_deref(), Some("/shoot"));
    assert_eq!(c.last_image_of(&"/shoot".to_string()).map(|s| s.as_str()), Some("IMG_9.JPG"));
    c.remember("/shoot", "IMG_10.JPG");
    assert_eq!(c.last_image_of(&"/shoot".to_string()).map(|s| s.as_str()), Some("IMG_10.JPG"));
    assert_eq!(c.last_image.len(), 1);
}

#[test]
fn opening_a_folder_resumes_at_the_last_image() {
    let mut s = session(&[]);
    assert_eq!(s.current, 0);
    assert_eq!(s.view, View::Loupe);
    s.select(3);
    let entries: Vec<Entry> = s.entries.iter().map(|e| entry(&e.name, e.capture_time)).collect();
    let config = std::mem::replace(&mut s.config, ResumeConfig::new());
    let mut again = CullState::new(config);
    again.open_folder("/shoot".to_string(), entries, NameMap::new());
    assert_eq!(again.current, 3);
    assert_eq!(again.config.last_folder.as_deref(), Some("/shoot"));
}

#[test]
fn arrows_skip_filtered_out_images_and_wrap() {
    let mut s = session(&[("c.jpg", r(4, false)), ("f.jpg", r(5, false))]);
    s.min_stars = 4;
    s.go(1);
    assert_eq!(s.current, 2);
    s.go(1);
    assert_eq!(s.current, 5);
    s.go(1);
    assert_eq!(s.current, 2);
    s.go(-1);
    assert_eq!(s.current, 5);
    s.go(-1);
    assert_eq!(s.current, 2);
}

#[test]
fn arrows_do_nothing_when_nothing_passes() {
    let mut s = session(&[]);
    s.min_stars = 1;
    s.go(1);
    assert_eq!(s.current, 0);
}

#[test]
fn next_unrated_finds_the_next_unreviewed_image() {
    let mut s = session(&[("b.jpg", r(3, false)), ("c.jpg", r(0, true))]);
    s.view = View::Grid;
    s.zoom = true;
    let note = s.go_next_unrated(1);
    assert_eq!(s.current, 3);
    assert_eq!(s.view, View::Loupe);
    assert!(!s.zoom);
    assert_eq!(note, Some(Notice::Unrated { forward: true, index: 3, total: 6 }));
    let back = s.go_next_unrated(-1);
    assert_eq!(s.current, 0);
    assert_eq!(back, Some(Notice::Unrated { forward: false, index: 0, total: 6 }));
}

#[test]
fn next_unrated_reports_all_reviewed() {
    let all: Vec<(&str, Rating)> =
        ["a.jpg", "b.jpg", "c.jpg", "d.jpg", "e.jpg", "f.jpg"].iter().map(|n| (*n, r(1, false))).collect();
    let mut s = session(&all);
    s.current = 2;
    assert_eq!(s.go_next_unrated(1), Some(Notice::AllReviewed));
    assert_eq!(s.current, 2);
}

#[test]
fn bin_jumps_go_to_first_image_of_adjacent_bin() {
    let mut s = session(&[]);
    s.go_bin(1);
    assert_eq!(s.current, 2);
    s.go_bin(1);
    assert_eq!(s.current, 4);
    s.go_bin(1);
    assert_eq!(s.current, 0);
    s.current = 5;
    s.go_bin(-1);
    assert_eq!(s.current, 2);
    s.go_bin(-1);
    assert_eq!(s.current, 0);
    s.go_bin(-1);
    assert_eq!(s.current, 4);
}

#[test]
fn rating_unrejects_and_auto_advances() {
    let mut s = session(&[("a.jpg", r(0, true))]);
    let mut k = no_keys();
    k.set_star = Some(4);
    let out = s.apply_keys(k);
    assert!(out.edited);
    assert!(s.dirty);
    assert_eq!(s.ratings.get(&"a.jpg".to_string()), Some(&r(4, false)));
    assert_eq!(s.current, 1);
    assert!(out.notices.is_empty());
}

#[test]
fn clearing_a_rating_is_announced_and_stays_put() {
    let mut s = session(&[("a.jpg", r(3, true))]);
    let mut k = no_keys();
    k.set_star = Some(0);
    let out = s.apply_keys(k);
    assert_eq!(s.current, 0);
    assert_eq!(s.ratings.get(&"a.jpg".to_string()), Some(&r(0, true)));
    assert_eq!(out.notices, vec![Notice::ClearedRating { index: 0 }]);
}

#[test]
fn reject_toggle_advances_only_when_flagging() {
    let mut s = session(&[]);
    let mut k = no_keys();
    k.toggle_reject = true;
    let out = s.apply_keys(k);
    assert_eq!(s.ratings.get(&"a.jpg".to_string()), Some(&r(0, true)));
    assert_eq!(s.current, 1);
    assert!(out.notices.is_empty());
    s.current = 0;
    let out = s.apply_keys(k);
    assert_eq!(s.ratings.get(&"a.jpg".to_string()), Some(&r(0, false)));
    assert_eq!(s.current, 0);
    assert_eq!(out.notices, vec![Notice::ClearedReject { index: 0 }]);
}

#[test]
fn help_swallows_keys_but_copy_and_escape_work() {
    let mut s = session(&[]);
    let mut k = no_keys();
    k.help = true;
    s.apply_keys(k);
    assert!(s.show_help);
    let mut k = no_keys();
    k.right = true;
    k.set_star = Some(5);
    k.copy = true;
    let out = s.apply_keys(k);
    assert_eq!(s.current, 0);
    assert_eq!(out.copy, Some(0));
    assert!(!out.edited);
    assert_eq!(s.ratings.len(), 0);
    let mut k = no_keys();
    k.esc = true;
    s.apply_keys(k);
    assert!(!s.show_help);
}

#[test]
fn escape_zooms_out_and_resets_pan() {
    let mut s = session(&[]);
    s.zoom = true;
    let mut k = no_keys();
    k.esc = true;
    let out = s.apply_keys(k);
    assert!(!s.zoom);
    assert!(out.reset_pan);
    let mut k = no_keys();
    k.zoom = true;
    k.grid = true;
    let out = s.apply_keys(k);
    assert!(s.zoom);
    assert!(out.reset_pan);
    assert_eq!(s.view, View::Grid);
}

#[test]
fn filtered_list_and_count_agree() {
    let mut s = session(&[("b.jpg", r(2, false)), ("e.jpg", r(3, true))]);
    s.min_stars = 2;
    assert_eq!(s.filtered_indices(), vec![1, 4]);
    assert_eq!(s.filtered_count(), 2);
    s.reject_filter = RejectFilter::Hide;
    assert_eq!(s.filtered_indices(), vec![1]);
    assert_eq!(s.filtered_count(), 1);
}

#[test]
fn review_progress_counts_rated_or_rejected() {
    let s = session(&[("a.jpg", r(1, false)), ("b.jpg", r(0, true)), ("c.jpg", r(0, false))]);
    assert_eq!(s.review_progress(), (2, 6, 33));
}

#[test]
fn window_keeps_six_each_side_current_first() {
    let p = window_plan(10, 100).unwrap();
    assert_eq!((p.lo, p.hi), (4, 16));
    assert_eq!(p.order, vec![10, 9, 11, 8, 12, 7, 13, 6, 14, 5, 15, 4, 16]);
    let p = window_plan(1, 4).unwrap();
    assert_eq!((p.lo, p.hi), (0, 3));
    assert_eq!(p.order, vec![1, 0, 2, 3]);
    assert!(window_plan(0, 0).is_none());
}

#[test]
fn grid_and_timeline_clicks_move_and_remember() {
    let mut s = session(&[]);
    s.select(4);
    assert_eq!(s.current, 4);
    assert_eq!(s.config.last_image_of(&"/shoot".to_string()).map(|x| x.as_str()), Some("e.jpg"));
    s.view = View::Grid;
    s.zoom = true;
    s.open_in_loupe(2);
    assert_eq!((s.current, s.view, s.zoom), (2, View::Loupe, false));
    s.mark_saved();
    assert!(!s.dirty);
}

#[test]
fn timeline_and_bin_jumps_ignore_the_filter() {
    let ratings = [("a.jpg", r(5, false)), ("c.jpg", r(0, true))];
    let plain = session(&ratings);
    let mut filtered = session(&ratings);
    filtered.min_stars = 5;
    filtered.star_filter_mode = StarFilterMode::Eq;
    filtered.reject_filter = RejectFilter::Only;
    let (t1, t2) = (plain.timeline(), filtered.timeline());
    assert_eq!(t1.bins, t2.bins);
    assert_eq!(t1.current_bin, t2.current_bin);
    let mut a = plain;
    a.go_bin(1);
    filtered.go_bin(1);
    assert_eq!(a.current, 2);
    assert_eq!(filtered.current, 2);
}

#[test]
fn saves_wait_for_edits_to_settle() {
    assert_eq!(save_step(false, 5_000_000_000), SaveStep::Idle);
    assert_eq!(save_step(true, 100_000_000), SaveStep::WaitNanos(500_000_000));
    assert_eq!(save_step(true, 600_000_000), SaveStep::Flush);
    assert_eq!(save_step(true, 0), SaveStep::WaitNanos(600_000_000));
}

#[test]
fn toast_texts() {
    let s = session(&[]);
    let up = Notice::Unrated { forward: true, index: 2, total: 6 };
    assert_eq!(s.notice_text(&up), "Next unrated · c.jpg (3/6)");
    let back = Notice::Unrated { forward: false, index: 9, total: 12 };
    assert_eq!(s.notice_text(&back), "Prev unrated ·  (10/12)");
    assert_eq!(s.notice_text(&Notice::AllReviewed), "No unrated images left — all reviewed");
    assert_eq!(s.notice_text(&Notice::ClearedRating { index: 0 }), "Cleared rating · a.jpg");
    assert_eq!(s.notice_text(&Notice::ClearedReject { index: 5 }), "Cleared reject · f.jpg");
    assert_eq!(copied_text("IMG_1.JPG"), "Copied · IMG_1.JPG");
    assert_eq!(exported_text(12, 3), "Exported 12 keepers ≥ 3★ (list + .xmp)");
    assert_eq!(exported_text(0, 5), "Exported 0 keepers ≥ 5★ (list + .xmp)");
    assert_eq!(export_failed_text("denied"), "Export failed: denied");
}

#[test]
fn guards_match_the_requirements() {
    let mut s = session(&[]);
    assert!(s.well_formed());
    assert!(s.bins_computable());
    assert!(s.timeline_computable());
    let mut k = no_keys();
    k.bin_right = true;
    assert!(s.keys_ok(&k));
    s.bin_minutes = 0;
    assert!(!s.bins_computable());
    assert!(!s.timeline_computable());
    assert!(!s.keys_ok(&k));
    assert!(s.keys_ok(&no_keys()));
    s.bin_minutes = 10;
    s.entries[0].capture_time = 1;
    s.entries[5].capture_time = i64::MIN;
    assert!(!s.bins_computable());
    s.entries[0].capture_time = 0;
    s.entries[5].capture_time = 1560;
    s.current = 6;
    assert!(!s.well_formed());
    assert!(!s.keys_ok(&no_keys()));
}

#[test]
fn name_map_keeps_names_in_order_and_finds_each() {
    let mut m = NameMap::new();
    for (i, n) in ["m.jpg", "b.jpg", "z.jpg", "a.jpg", "k.jpg", "b.jpg"].iter().enumerate() {
        m.insert(n.to_string(), i as u8);
    }
    assert_eq!(m.len(), 5);
    let names: Vec<&str> = m.pairs().iter().map(|(n, _)| n.as_str()).collect();
    assert_eq!(names, vec!["a.jpg", "b.jpg", "k.jpg", "m.jpg", "z.jpg"]);
    assert_eq!(m.get(&"b.jpg".to_string()), Some(&5));
    assert_eq!(m.get(&"z.jpg".to_string()), Some(&2));
    assert_eq!(m.get(&"c.jpg".to_string()), None);
}

#[test]
fn bin_tooltip_counts_keepers_and_work_left() {
    let b = TlBin { total: 12, covered: 4, handled: 9, first: Some(3) };
    assert_eq!(bin_tooltip_text("10:30", &b), "10:30  ·  4/12 keepers  ·  3 left to rate");
}

#[test]
fn each_decode_is_requested_once_until_it_returns() {
    let mut r = Requests::new(4);
    assert!(!r.any());
    assert!(r.claim(2, false));
    assert!(!r.claim(2, false));
    assert!(!r.claim(1, true));
    assert!(!r.claim(9, false));
    assert!(r.any());
    r.finish(2);
    assert!(!r.any());
    assert!(r.claim(2, false));
    assert!(r.claim(0, false));
    r.keep_only(1, 3);
    assert!(r.claim(0, false));
    assert!(!r.claim(2, false));
}
