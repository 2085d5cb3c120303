//! The culling session: the folder's images, their ratings, the filters, and
//! where the photographer is. Every decision the application makes on a key
//! press or a click is a method here; the application draws and does I/O.

use vstd::prelude::*;
use crate::arith::{tdiv, trunc_div, wrap_index};
use crate::model;
use crate::model::{Rating, StarFilterMode, RejectFilter, passes, passes_spec, rating_or_blank};
use crate::namemap::NameMap;
use crate::persist::{ResumeConfig, ConfigView, opt_view};
use crate::scan::Entry;
use crate::timeline::{BinInput, TlBin, bin_timeline};

verus! {

/// Upper bound on the number of images a session holds: a vector of entries
/// can never come near it, and below it the index arithmetic stays in `i64`.
pub open spec fn max_entries() -> int {
    0x4000_0000_0000_0000
}

/// The session as values.
pub struct CullView {
    pub entries: Seq<Entry>,
    pub ratings: Map<Seq<char>, Rating>,
    pub folder: Option<Seq<char>>,
    pub config: ConfigView,
    pub dirty: bool,
    pub min_stars: u8,
    pub star_filter_mode: StarFilterMode,
    pub reject_filter: RejectFilter,
    pub auto_advance: bool,
    pub bin_minutes: i64,
    pub threshold: u8,
    pub current: int,
    pub view: model::View,
    pub zoom: bool,
    pub show_help: bool,
}

/// The config after remembering `image` as the last-viewed image of `folder`.
pub open spec fn config_remember(c: ConfigView, folder: Seq<char>, image: Seq<char>) -> ConfigView {
    ConfigView { last_folder: Some(folder), last_image: c.last_image.insert(folder, image) }
}

/// `x mod n` taken in `0..n`: the index `delta * step` positions away from
/// `cur` when walking around a list of `n` images.
pub open spec fn wrapped(cur: int, delta: int, step: int, n: int) -> int {
    (cur + delta * step) % n
}

/// Walking `step` images by `delta` from `cur` stays within `i64`.
pub open spec fn step_fits(cur: int, delta: int, step: int) -> bool {
    &&& i64::MIN <= delta * step <= i64::MAX
    &&& i64::MIN <= cur + delta * step <= i64::MAX
}

/// Every walk of up to `n` steps by `delta` from `cur` stays within `i64`.
pub open spec fn walk_fits(cur: int, delta: int, n: int) -> bool {
    forall|s: int| 1 <= s <= n ==> #[trigger] step_fits(cur, delta, s)
}

/// Single steps fit: the index arithmetic of a session stays far from the
/// `i64` limits.
pub proof fn lemma_unit_walk_fits(v: CullView, delta: int)
    requires
        v.wf(),
        -1 <= delta <= 1,
    ensures
        walk_fits(v.current, delta, v.len()),
        v.go_fits(delta),
        v.next_unrated_fits(delta),
{
    assert forall|s: int| 1 <= s <= v.len() implies #[trigger] step_fits(v.current, delta, s) by {
        assert(-s <= delta * s <= s) by (nonlinear_arith)
            requires
                -1 <= delta <= 1,
                s >= 1,
        ;
    }
    lemma_walk_fits_stops(v, delta);
}

/// A walk that fits for all `len` steps fits up to wherever it stops.
pub proof fn lemma_walk_fits_stops(v: CullView, delta: int)
    requires
        walk_fits(v.current, delta, v.len()),
    ensures
        v.go_fits(delta),
        v.next_unrated_fits(delta),
{
    lemma_step_search_range(v, delta, 1);
}

/// Each search for a step gives 0 or a step in `from..=len`.
proof fn lemma_step_search_range(v: CullView, delta: int, from: int)
    ensures
        v.first_passing_step(delta, from) == 0 || from <= v.first_passing_step(delta, from) <= v.len(),
        v.first_unrated_step(delta, from) == 0 || from <= v.first_unrated_step(delta, from) <= v.len(),
    decreases v.len() + 1 - from,
{
    if 1 <= from <= v.len() {
        lemma_step_search_range(v, delta, from + 1);
    }
}

impl CullView {
    /// Number of images.
    pub open spec fn len(self) -> int {
        self.entries.len() as int
    }

    /// The stored rating of image `j`, if any.
    pub open spec fn stored_rating(self, j: int) -> Option<Rating> {
        if 0 <= j < self.len() && self.ratings.contains_key(self.entries[j].name@) {
            Some(self.ratings[self.entries[j].name@])
        } else {
            None
        }
    }

    /// The rating of image `j` (blank when unrated).
    pub open spec fn rating_of(self, j: int) -> Rating {
        rating_or_blank(self.stored_rating(j))
    }

    /// Does image `j` pass the active filter?
    pub open spec fn passes_at(self, j: int) -> bool {
        passes_spec(self.stored_rating(j), self.min_stars, self.star_filter_mode, self.reject_filter)
    }

    /// Is image `j` still to be reviewed (no stars, not rejected)?
    pub open spec fn unrated_at(self, j: int) -> bool {
        !self.rating_of(j).is_handled()
    }

    /// Indices are in range, and the index arithmetic fits.
    pub open spec fn wf(self) -> bool {
        &&& self.len() < max_entries()
        &&& self.len() <= usize::MAX
        &&& (self.len() == 0 ==> self.current == 0)
        &&& (self.len() > 0 ==> 0 <= self.current < self.len())
    }

    /// The session with the current image remembered as this folder's resume point.
    pub open spec fn remembered(self) -> CullView {
        match self.folder {
            Some(f) => if 0 <= self.current < self.len() {
                CullView {
                    config: config_remember(self.config, f, self.entries[self.current].name@),
                    ..self
                }
            } else {
                self
            },
            None => self,
        }
    }

    /// The session moved to image `j`, which becomes the resume point.
    pub open spec fn moved_to(self, j: int) -> CullView {
        CullView { current: j, ..self }.remembered()
    }

    /// The first step `s >= from` (up to `len`) at which walking by `delta`
    /// from the current image lands on an image that passes the filter; 0 if
    /// there is none.
    pub open spec fn first_passing_step(self, delta: int, from: int) -> int
        decreases self.len() + 1 - from,
    {
        if from > self.len() || from < 1 {
            0
        } else if self.passes_at(wrapped(self.current, delta, from, self.len())) {
            from
        } else {
            self.first_passing_step(delta, from + 1)
        }
    }

    /// Every step the walk of `go(delta)` takes stays within `i64`: the steps
    /// up to the one that lands on a passing image, or all `len` steps when
    /// none does.
    pub open spec fn go_fits(self, delta: int) -> bool {
        let s = self.first_passing_step(delta, 1);
        forall|t: int|
            1 <= t <= (if s == 0 { self.len() } else { s }) ==> #[trigger] step_fits(
                self.current,
                delta,
                t,
            )
    }

    /// Move `delta` steps through the full list, skipping images the filter
    /// hides and wrapping at both ends; unchanged when nothing passes.
    pub open spec fn go(self, delta: int) -> CullView {
        if self.len() == 0 {
            self
        } else {
            let s = self.first_passing_step(delta, 1);
            if s == 0 {
                self
            } else {
                self.moved_to(wrapped(self.current, delta, s, self.len()))
            }
        }
    }

    /// The first step `s >= from` at which walking by `dir` lands on an
    /// unrated image; 0 if there is none.
    pub open spec fn first_unrated_step(self, dir: int, from: int) -> int
        decreases self.len() + 1 - from,
    {
        if from > self.len() || from < 1 {
            0
        } else if self.unrated_at(wrapped(self.current, dir, from, self.len())) {
            from
        } else {
            self.first_unrated_step(dir, from + 1)
        }
    }

    /// Every step the walk of `go_next_unrated(dir)` takes stays within
    /// `i64`: the steps up to the one that lands on an unrated image, or all
    /// `len` steps when none does.
    pub open spec fn next_unrated_fits(self, dir: int) -> bool {
        let s = self.first_unrated_step(dir, 1);
        forall|t: int|
            1 <= t <= (if s == 0 { self.len() } else { s }) ==> #[trigger] step_fits(
                self.current,
                dir,
                t,
            )
    }

    /// Jump to the next unrated image in direction `dir` (ignoring the
    /// filter), opening it in the loupe; and what to tell the photographer.
    pub open spec fn go_next_unrated(self, dir: int) -> (CullView, Option<Notice>) {
        if self.len() == 0 {
            (self, None)
        } else {
            let s = self.first_unrated_step(dir, 1);
            if s == 0 {
                (self, Some(Notice::AllReviewed))
            } else {
                let j = wrapped(self.current, dir, s, self.len());
                (
                    CullView { view: model::View::Loupe, zoom: false, ..self }.moved_to(j),
                    Some(Notice::Unrated { forward: dir == 1, index: j as usize, total: self.len() as usize }),
                )
            }
        }
    }

    /// Width of a timeline bin in seconds.
    pub open spec fn bin_seconds(self) -> int {
        self.bin_minutes * 60
    }

    /// The time bin of image `j`, counted from the first image.
    pub open spec fn bin(self, j: int) -> int {
        tdiv(
            self.entries[j].capture_time - self.entries[0].capture_time,
            self.bin_seconds(),
        )
    }

    /// Bin arithmetic fits in `i64` and the bin width is not zero.
    pub open spec fn bins_in_range(self) -> bool {
        &&& self.bin_minutes != 0
        &&& i64::MIN <= self.bin_seconds() <= i64::MAX
        &&& forall|j: int|
            0 <= j < self.len() ==> i64::MIN <= #[trigger] self.entries[j].capture_time
                - self.entries[0].capture_time <= i64::MAX
    }

    /// The first image at or after `j` whose bin is later than `b` (`len` if none).
    pub open spec fn first_bin_after(self, j: int, b: int) -> int
        decreases self.len() - j,
    {
        if j >= self.len() {
            self.len()
        } else if self.bin(j) > b {
            j
        } else {
            self.first_bin_after(j + 1, b)
        }
    }

    /// The last image before `j` whose bin is earlier than `b` (-1 if none).
    pub open spec fn last_bin_before(self, j: int, b: int) -> int
        decreases j,
    {
        if j <= 0 {
            -1
        } else if self.bin(j - 1) < b {
            j - 1
        } else {
            self.last_bin_before(j - 1, b)
        }
    }

    /// The first image of the run of images sharing image `j`'s bin that ends at `j`.
    pub open spec fn run_start(self, j: int) -> int
        decreases j,
    {
        if j >= 1 && self.bin(j - 1) == self.bin(j) {
            self.run_start(j - 1)
        } else {
            j
        }
    }

    /// Where a time-bin jump in direction `dir` lands: forward, the first
    /// image of the next later bin (wrapping to the first image); backward,
    /// the first image of the previous earlier bin (wrapping to the first
    /// image of the last bin).
    pub open spec fn bin_jump_target(self, dir: int) -> int {
        let cb = self.bin(self.current);
        if dir > 0 {
            let j = self.first_bin_after(self.current + 1, cb);
            if j < self.len() {
                j
            } else {
                0
            }
        } else {
            let j = self.last_bin_before(self.current, cb);
            if j >= 0 {
                self.run_start(j)
            } else {
                self.run_start(self.len() - 1)
            }
        }
    }

    /// Jump to the adjacent non-empty time bin (ignores the filter).
    pub open spec fn go_bin(self, dir: int) -> CullView {
        if self.len() == 0 {
            self
        } else {
            self.moved_to(self.bin_jump_target(dir))
        }
    }

    /// The current image rated `r`, and the session marked dirty.
    pub open spec fn with_current_rating(self, r: Rating) -> CullView {
        if 0 <= self.current < self.len() {
            CullView {
                ratings: self.ratings.insert(self.entries[self.current].name@, r),
                dirty: true,
                ..self
            }
        } else {
            self
        }
    }

    /// Set the current image's stars; a rating above 0 also clears the reject flag.
    pub open spec fn rate_current(self, stars: u8) -> CullView {
        let old = self.rating_of(self.current);
        self.with_current_rating(
            Rating { stars, reject: if stars > 0 { false } else { old.reject } },
        )
    }

    /// Flip the current image's reject flag.
    pub open spec fn toggle_reject_current(self) -> CullView {
        let old = self.rating_of(self.current);
        self.with_current_rating(Rating { stars: old.stars, reject: !old.reject })
    }
}

/// A transient message for the photographer.
#[derive(PartialEq, Eq, Structural, Clone, Copy, Debug)]
pub enum Notice {
    /// Landed on an unrated image (`index` of `total`), moving forward or back.
    Unrated { forward: bool, index: usize, total: usize },
    /// Every image is rated or rejected.
    AllReviewed,
    /// The rating of image `index` was cleared.
    ClearedRating { index: usize },
    /// The reject flag of image `index` was cleared.
    ClearedReject { index: usize },
}

/// The state of a culling session.
pub struct CullState {
    pub entries: Vec<Entry>,
    /// Ratings by file name.
    pub ratings: NameMap<Rating>,
    /// The open folder's path.
    pub folder: Option<String>,
    pub config: ResumeConfig,
    /// Ratings changed since the last save.
    pub dirty: bool,
    pub min_stars: u8,
    pub star_filter_mode: StarFilterMode,
    pub reject_filter: RejectFilter,
    pub auto_advance: bool,
    /// Timeline bin width in minutes (5 / 10 / 15).
    pub bin_minutes: i64,
    /// Keeper threshold: timeline coverage and export.
    pub threshold: u8,
    /// Index into the full entries list.
    pub current: usize,
    pub view: model::View,
    pub zoom: bool,
    pub show_help: bool,
}

impl View for CullState {
    type V = CullView;

    open spec fn view(&self) -> CullView {
        CullView {
            entries: self.entries@,
            ratings: self.ratings@,
            folder: opt_view(self.folder),
            config: self.config@,
            dirty: self.dirty,
            min_stars: self.min_stars,
            star_filter_mode: self.star_filter_mode,
            reject_filter: self.reject_filter,
            auto_advance: self.auto_advance,
            bin_minutes: self.bin_minutes,
            threshold: self.threshold,
            current: self.current as int,
            view: self.view,
            zoom: self.zoom,
            show_help: self.show_help,
        }
    }
}

impl CullState {
    /// The stored rating of entry `idx`, if any.
    fn stored(&self, idx: usize) -> (res: Option<&Rating>)
        ensures
            match res {
                Some(r) => self@.stored_rating(idx as int) == Some(*r),
                None => self@.stored_rating(idx as int) == None::<Rating>,
            },
    {
        if idx < self.entries.len() {
            self.ratings.get(&self.entries[idx].name)
        } else {
            None
        }
    }

    /// Rating for an entry index (blank when unrated or out of range).
    pub fn rating_at(&self, idx: usize) -> (r: Rating)
        ensures
            r == self@.rating_of(idx as int),
    {
        match self.stored(idx) {
            Some(r) => *r,
            None => Rating { stars: 0, reject: false },
        }
    }

    /// Does entry `idx` pass the active filter?
    pub fn passes_idx(&self, idx: usize) -> (res: bool)
        ensures
            res == self@.passes_at(idx as int),
    {
        let r = self.stored(idx);
        passes(r, self.min_stars, self.star_filter_mode, self.reject_filter)
    }

    /// Remember the current image as the per-folder resume point.
    pub fn remember_position(&mut self)
        ensures
            final(self)@ == old(self)@.remembered(),
    {
        match &self.folder {
            Some(folder) => {
                if self.current < self.entries.len() {
                    let ghost before = self@;
                    let f = folder.as_str();
                    let name = self.entries[self.current].name.as_str();
                    self.config.remember(f, name);
                    assert(self@ == before.remembered());
                }
            },
            None => {},
        }
    }

    /// Move `delta` steps through the full list, skipping filtered-out images
    /// and wrapping at both ends. No-op if nothing passes.
    pub fn go(&mut self, delta: i64)
        requires
            old(self)@.wf(),
            old(self)@.go_fits(delta as int),
        ensures
            final(self)@ == old(self)@.go(delta as int),
    {
        let n = self.entries.len();
        if n == 0 {
            return;
        }
        let ghost v0 = self@;
        let i = self.current as i64;
        let n_i = n as i64;
        let mut step: i64 = 1;
        while step <= n_i
            invariant
                self@ == v0,
                old(self)@ == v0,
                v0.wf(),
                n == v0.len(),
                n_i == n,
                i == v0.current,
                v0.go_fits(delta as int),
                1 <= step <= n_i + 1,
                v0.first_passing_step(delta as int, 1) == v0.first_passing_step(delta as int, step as int),
            decreases n_i + 1 - step,
        {
            proof {
                lemma_step_search_range(v0, delta as int, step as int);
            }
            assert(step_fits(v0.current, delta as int, step as int));
            let x = i + delta * step;
            let j = wrap_index(x, n_i) as usize;
            assert(j == wrapped(v0.current, delta as int, step as int, v0.len()));
            if self.passes_idx(j) {
                assert(v0.first_passing_step(delta as int, step as int) == step);
                self.current = j;
                assert(self@ == CullView { current: j as int, ..v0 });
                self.remember_position();
                return;
            }
            step += 1;
        }
        assert(v0.first_passing_step(delta as int, step as int) == 0);
    }
}


impl CullState {
    /// Jump to the next unrated image (no stars, not rejected) in `dir`,
    /// ignoring the filter so there's always work to resume; and what to tell
    /// the photographer.
    pub fn go_next_unrated(&mut self, dir: i64) -> (res: Option<Notice>)
        requires
            old(self)@.wf(),
            old(self)@.next_unrated_fits(dir as int),
        ensures
            (final(self)@, res) == old(self)@.go_next_unrated(dir as int),
    {
        let n = self.entries.len();
        if n == 0 {
            return None;
        }
        let ghost v0 = self@;
        let i = self.current as i64;
        let n_i = n as i64;
        let mut step: i64 = 1;
        while step <= n_i
            invariant
                self@ == v0,
                old(self)@ == v0,
                v0.wf(),
                n == v0.len(),
                n_i == n,
                i == v0.current,
                v0.next_unrated_fits(dir as int),
                1 <= step <= n_i + 1,
                v0.first_unrated_step(dir as int, 1) == v0.first_unrated_step(dir as int, step as int),
            decreases n_i + 1 - step,
        {
            proof {
                lemma_step_search_range(v0, dir as int, step as int);
            }
            assert(step_fits(v0.current, dir as int, step as int));
            let x = i + dir * step;
            let j = wrap_index(x, n_i) as usize;
            assert(j == wrapped(v0.current, dir as int, step as int, v0.len()));
            let r = self.rating_at(j);
            if r.stars == 0 && !r.reject {
                assert(v0.first_unrated_step(dir as int, step as int) == step);
                self.current = j;
                self.view = model::View::Loupe;
                self.zoom = false;
                assert(self@ == CullView { current: j as int, ..CullView { view: model::View::Loupe, zoom: false, ..v0 } });
                self.remember_position();
                return Some(Notice::Unrated { forward: dir == 1, index: j, total: n });
            }
            step += 1;
        }
        assert(v0.first_unrated_step(dir as int, step as int) == 0);
        Some(Notice::AllReviewed)
    }

    /// The time bin of entry `j`.
    fn bin_at(&self, j: usize) -> (b: i64)
        requires
            self@.bins_in_range(),
            j < self.entries.len(),
        ensures
            b == self@.bin(j as int),
    {
        let ghost v = self@;
        assert(i64::MIN <= v.entries[j as int].capture_time - v.entries[0].capture_time <= i64::MAX);
        let bin_sec = self.bin_minutes * 60;
        let d = self.entries[j].capture_time - self.entries[0].capture_time;
        trunc_div(d, bin_sec)
    }

    /// The first entry of the run of entries that share entry `j`'s bin and end at `j`.
    fn run_start_of(&self, j: usize) -> (k: usize)
        requires
            self@.bins_in_range(),
            j < self.entries.len(),
        ensures
            k as int == self@.run_start(j as int),
    {
        let ghost v = self@;
        let b = self.bin_at(j);
        let mut k = j;
        while k >= 1 && self.bin_at(k - 1) == b
            invariant
                self@ == v,
                v.bins_in_range(),
                j < v.len(),
                k <= j,
                v.bin(k as int) == b,
                v.run_start(j as int) == v.run_start(k as int),
            decreases k,
        {
            k -= 1;
        }
        k
    }

    /// Jump to the first image of the adjacent non-empty time bin; ignores the
    /// active filter (it navigates by capture time).
    pub fn go_bin(&mut self, dir: i64)
        requires
            old(self)@.wf(),
            old(self)@.bins_in_range(),
        ensures
            final(self)@ == old(self)@.go_bin(dir as int),
    {
        let n = self.entries.len();
        if n == 0 {
            return;
        }
        let ghost v0 = self@;
        let i = self.current;
        let cur_bin = self.bin_at(i);
        if dir > 0 {
            let mut j = i + 1;
            while j < n
                invariant
                    self@ == v0,
                    old(self)@ == v0,
                    v0.wf(),
                    v0.bins_in_range(),
                    n == v0.len(),
                    i == v0.current,
                    cur_bin == v0.bin(i as int),
                    dir > 0,
                    i + 1 <= j <= n,
                    v0.first_bin_after(i + 1, cur_bin as int) == v0.first_bin_after(j as int, cur_bin as int),
                decreases n - j,
            {
                if self.bin_at(j) > cur_bin {
                    assert(v0.first_bin_after(j as int, cur_bin as int) == j);
                    assert(v0.bin_jump_target(dir as int) == j);
                    self.current = j;
                    assert(self@ == CullView { current: j as int, ..v0 });
                    self.remember_position();
                    return;
                }
                j += 1;
            }
            self.current = 0;
            assert(self@ == CullView { current: 0, ..v0 });
        } else {
            let mut k = i;
            while k > 0 && self.bin_at(k - 1) >= cur_bin
                invariant
                    self@ == v0,
                    v0.wf(),
                    v0.bins_in_range(),
                    n == v0.len(),
                    i == v0.current,
                    cur_bin == v0.bin(i as int),
                    k <= i,
                    v0.last_bin_before(i as int, cur_bin as int) == v0.last_bin_before(k as int, cur_bin as int),
                decreases k,
            {
                k -= 1;
            }
            if k > 0 {
                let j = self.run_start_of(k - 1);
                self.current = j;
                assert(self@ == CullView { current: j as int, ..v0 });
                self.remember_position();
                return;
            }
            let j = self.run_start_of(n - 1);
            self.current = j;
            assert(self@ == CullView { current: j as int, ..v0 });
        }
        self.remember_position();
    }

    /// Set the current image's star rating; rating above 0 also clears the
    /// reject flag (a keeper isn't a reject). Marks the ratings dirty.
    pub fn rate_current(&mut self, stars: u8)
        ensures
            final(self)@ == old(self)@.rate_current(stars),
    {
        if self.current < self.entries.len() {
            let old = self.rating_at(self.current);
            let r = Rating { stars, reject: if stars > 0 { false } else { old.reject } };
            let name = self.entries[self.current].name.clone();
            self.ratings.insert(name, r);
            self.dirty = true;
        }
    }

    /// Flip the current image's reject flag. Marks the ratings dirty.
    pub fn toggle_reject_current(&mut self)
        ensures
            final(self)@ == old(self)@.toggle_reject_current(),
    {
        if self.current < self.entries.len() {
            let old = self.rating_at(self.current);
            let r = Rating { stars: old.stars, reject: !old.reject };
            let name = self.entries[self.current].name.clone();
            self.ratings.insert(name, r);
            self.dirty = true;
        }
    }
}


/// The keys pressed in one frame, as the application reads them.
#[derive(Clone, Copy, Debug)]
pub struct KeyPresses {
    /// Ctrl+Q.
    pub quit: bool,
    /// Ctrl+C.
    pub copy: bool,
    /// Ctrl+Left: previous time bin.
    pub bin_left: bool,
    /// Ctrl+Right: next time bin.
    pub bin_right: bool,
    /// `?`.
    pub help: bool,
    /// Escape.
    pub esc: bool,
    /// Left arrow.
    pub left: bool,
    /// Right arrow.
    pub right: bool,
    /// N (Shift+N goes backward).
    pub next_unrated: bool,
    pub shift: bool,
    /// 0-5.
    pub set_star: Option<u8>,
    /// X.
    pub toggle_reject: bool,
    /// Q: toggle zoom.
    pub zoom: bool,
    /// G: grid view.
    pub grid: bool,
    /// E: loupe view.
    pub loupe: bool,
}

/// What the application has to do after a frame's keys were applied.
pub struct KeyOutcome {
    /// Close the window.
    pub quit: bool,
    /// Copy this image to the clipboard.
    pub copy: Option<usize>,
    /// Reset the loupe's pan offset.
    pub reset_pan: bool,
    /// A rating was edited (restart the save debounce).
    pub edited: bool,
    /// Messages to show, in order.
    pub notices: Vec<Notice>,
}

/// A `KeyOutcome` as values.
pub struct KeyOutcomeView {
    pub quit: bool,
    pub copy: Option<usize>,
    pub reset_pan: bool,
    pub edited: bool,
    pub notices: Seq<Notice>,
}

impl vstd::view::View for KeyOutcome {
    type V = KeyOutcomeView;

    open spec fn view(&self) -> KeyOutcomeView {
        KeyOutcomeView {
            quit: self.quit,
            copy: self.copy,
            reset_pan: self.reset_pan,
            edited: self.edited,
            notices: self.notices@,
        }
    }
}

/// An optional notice as a sequence of zero or one notices.
pub open spec fn notice_seq(n: Option<Notice>) -> Seq<Notice> {
    match n {
        Some(x) => seq![x],
        None => Seq::empty(),
    }
}

impl CullView {
    /// Ctrl+Left / Ctrl+Right: time-bin jumps (only with images).
    #[verifier::opaque]
    pub open spec fn keys_bins(self, k: KeyPresses) -> CullView {
        let v1 = if self.len() > 0 && k.bin_left { self.go_bin(-1) } else { self };
        if v1.len() > 0 && k.bin_right { v1.go_bin(1) } else { v1 }
    }

    /// `?` toggles the help; Escape closes the help, or else zooms out
    /// (resetting the pan).
    #[verifier::opaque]
    pub open spec fn keys_help(self, k: KeyPresses) -> (CullView, bool) {
        let v = if k.help { CullView { show_help: !self.show_help, ..self } } else { self };
        if k.esc {
            if v.show_help {
                (CullView { show_help: false, ..v }, false)
            } else if v.zoom {
                (CullView { zoom: false, ..v }, true)
            } else {
                (v, false)
            }
        } else {
            (v, false)
        }
    }

    /// Arrows move through the filtered list; N / Shift+N find unrated images.
    #[verifier::opaque]
    pub open spec fn keys_moves(self, k: KeyPresses) -> (CullView, Seq<Notice>) {
        let v1 = if k.left { self.go(-1) } else { self };
        let v2 = if k.right { v1.go(1) } else { v1 };
        if k.next_unrated {
            let (v3, note) = v2.go_next_unrated(if k.shift { -1 } else { 1 });
            (v3, notice_seq(note))
        } else {
            (v2, Seq::empty())
        }
    }

    /// 0-5 rate the current image (clearing a rating is announced); with
    /// auto-advance in the loupe, a rating above 0 moves on.
    #[verifier::opaque]
    pub open spec fn keys_star(self, k: KeyPresses) -> (CullView, Seq<Notice>) {
        match k.set_star {
            None => (self, Seq::empty()),
            Some(s) => {
                let cur = self.current;
                let prev = self.rating_of(cur).stars;
                let v1 = self.rate_current(s);
                let notes = if s == 0 && prev > 0 {
                    seq![Notice::ClearedRating { index: cur as usize }]
                } else {
                    Seq::empty()
                };
                let v2 = if self.auto_advance && s > 0 && self.view == model::View::Loupe {
                    v1.go(1)
                } else {
                    v1
                };
                (v2, notes)
            },
        }
    }

    /// X flips the reject flag (clearing it is announced); with auto-advance
    /// in the loupe, flagging moves on.
    #[verifier::opaque]
    pub open spec fn keys_reject(self, k: KeyPresses) -> (CullView, Seq<Notice>) {
        if !k.toggle_reject {
            (self, Seq::empty())
        } else {
            let cur = self.current;
            let v1 = self.toggle_reject_current();
            let now = v1.rating_of(cur).reject;
            let notes = if !now {
                seq![Notice::ClearedReject { index: cur as usize }]
            } else {
                Seq::empty()
            };
            let v2 = if self.auto_advance && self.view == model::View::Loupe && now {
                v1.go(1)
            } else {
                v1
            };
            (v2, notes)
        }
    }

    /// Q toggles the zoom (resetting the pan); G and E pick the view.
    #[verifier::opaque]
    pub open spec fn keys_view(self, k: KeyPresses) -> (CullView, bool) {
        let v1 = if k.zoom { CullView { zoom: !self.zoom, ..self } } else { self };
        let v2 = if k.grid { CullView { view: model::View::Grid, ..v1 } } else { v1 };
        let v3 = if k.loupe { CullView { view: model::View::Loupe, ..v2 } } else { v2 };
        (v3, k.zoom)
    }

    /// A frame's keys applied in order: copy and bin jumps work even while
    /// the help is open; everything else is swallowed while the help is up or
    /// the folder is empty.
    pub open spec fn apply_keys(self, k: KeyPresses) -> (CullView, KeyOutcomeView) {
        let copy = if k.copy && 0 <= self.current < self.len() {
            Some(self.current as usize)
        } else {
            None
        };
        let v1 = self.keys_bins(k);
        let (v2, pan1) = v1.keys_help(k);
        if v2.show_help || v2.len() == 0 {
            (
                v2,
                KeyOutcomeView {
                    quit: k.quit,
                    copy,
                    reset_pan: pan1,
                    edited: false,
                    notices: Seq::empty(),
                },
            )
        } else {
            let (v3, n1) = v2.keys_moves(k);
            let (v4, n2) = v3.keys_star(k);
            let (v5, n3) = v4.keys_reject(k);
            let (v6, pan2) = v5.keys_view(k);
            (
                v6,
                KeyOutcomeView {
                    quit: k.quit,
                    copy,
                    reset_pan: pan1 || pan2,
                    edited: k.set_star is Some || k.toggle_reject,
                    notices: n1 + n2 + n3,
                },
            )
        }
    }

    /// What the key handling needs: a well-formed session, and bins that
    /// can be computed when a bin jump is asked for.
    pub open spec fn keys_ok(self, k: KeyPresses) -> bool {
        &&& self.wf()
        &&& (k.bin_left || k.bin_right) && self.len() > 0 ==> self.bins_in_range()
    }
}

/// Walking the list stays inside it.
pub proof fn lemma_wrapped_in_range(cur: int, delta: int, step: int, n: int)
    requires
        n > 0,
    ensures
        0 <= wrapped(cur, delta, step, n) < n,
{
}

/// The search for a later bin ends inside `j..=len`.
pub proof fn lemma_first_bin_after_range(v: CullView, j: int, b: int)
    requires
        0 <= j <= v.len(),
    ensures
        j <= v.first_bin_after(j, b) <= v.len(),
    decreases v.len() - j,
{
    if j < v.len() && !(v.bin(j) > b) {
        lemma_first_bin_after_range(v, j + 1, b);
    }
}

/// The search for an earlier bin ends inside `-1..j`.
pub proof fn lemma_last_bin_before_range(v: CullView, j: int, b: int)
    requires
        0 <= j,
    ensures
        -1 <= v.last_bin_before(j, b) < j,
    decreases j,
{
    if j > 0 && !(v.bin(j - 1) < b) {
        lemma_last_bin_before_range(v, j - 1, b);
    }
}

/// The start of a run lies between 0 and the run's end.
pub proof fn lemma_run_start_range(v: CullView, j: int)
    requires
        0 <= j,
    ensures
        0 <= v.run_start(j) <= j,
    decreases j,
{
    if j >= 1 && v.bin(j - 1) == v.bin(j) {
        lemma_run_start_range(v, j - 1);
    }
}

/// Every navigation step keeps the session well formed and leaves the
/// images, the bin width and the timeline settings as they were.
pub proof fn lemma_steps_keep_wf(v: CullView, delta: int)
    requires
        v.wf(),
    ensures
        v.go(delta).wf(),
        v.go(delta).entries == v.entries,
        v.go(delta).bin_minutes == v.bin_minutes,
        v.go(delta).show_help == v.show_help,
        v.go(delta).view == v.view,
        v.go(delta).auto_advance == v.auto_advance,
        v.go(delta).ratings == v.ratings,
        v.go_next_unrated(delta).0.wf(),
        v.go_next_unrated(delta).0.entries == v.entries,
        v.go_next_unrated(delta).0.bin_minutes == v.bin_minutes,
        v.go_next_unrated(delta).0.show_help == v.show_help,
        v.go_next_unrated(delta).0.auto_advance == v.auto_advance,
        v.go_next_unrated(delta).0.ratings == v.ratings,
{
    if v.len() > 0 {
        let s = v.first_passing_step(delta, 1);
        lemma_wrapped_in_range(v.current, delta, s, v.len());
        let t = v.first_unrated_step(delta, 1);
        lemma_wrapped_in_range(v.current, delta, t, v.len());
    }
}

/// Rating the current image or flipping its reject flag keeps the session
/// well formed: only the ratings change.
pub proof fn lemma_edits_keep_wf(v: CullView)
    requires
        v.wf(),
    ensures
        forall|stars: u8| #[trigger] v.rate_current(stars).wf(),
        v.toggle_reject_current().wf(),
{
}

/// A bin jump keeps the session well formed and leaves everything but the
/// position and the resume point as it was.
pub proof fn lemma_go_bin_keeps_wf(v: CullView, dir: int)
    requires
        v.wf(),
    ensures
        v.go_bin(dir).wf(),
        v.go_bin(dir).entries == v.entries,
        v.go_bin(dir).bin_minutes == v.bin_minutes,
        v.go_bin(dir).show_help == v.show_help,
        v.go_bin(dir).zoom == v.zoom,
        v.go_bin(dir).view == v.view,
        v.go_bin(dir).auto_advance == v.auto_advance,
        v.go_bin(dir).ratings == v.ratings,
{
    if v.len() > 0 {
        let cb = v.bin(v.current);
        lemma_first_bin_after_range(v, v.current + 1, cb);
        lemma_last_bin_before_range(v, v.current, cb);
        let j = v.last_bin_before(v.current, cb);
        if j >= 0 {
            lemma_run_start_range(v, j);
        }
        lemma_run_start_range(v, v.len() - 1);
    }
}

impl CullState {
    fn keys_bins(&mut self, k: KeyPresses)
        requires
            old(self)@.keys_ok(k),
        ensures
            final(self)@ == old(self)@.keys_bins(k),
            final(self)@.wf(),
            final(self)@.entries == old(self)@.entries,
    {
        reveal(CullView::keys_bins);
        let n = self.entries.len();
        if n > 0 && k.bin_left {
            proof { lemma_go_bin_keeps_wf(self@, -1); }
            self.go_bin(-1);
        }
        if n > 0 && k.bin_right {
            proof { lemma_go_bin_keeps_wf(self@, 1); }
            self.go_bin(1);
        }
    }

    fn keys_help(&mut self, k: KeyPresses) -> (reset_pan: bool)
        requires
            old(self)@.wf(),
        ensures
            (final(self)@, reset_pan) == old(self)@.keys_help(k),
            final(self)@.wf(),
            final(self)@.entries == old(self)@.entries,
    {
        reveal(CullView::keys_help);
        if k.help {
            self.show_help = !self.show_help;
        }
        let mut reset_pan = false;
        if k.esc {
            if self.show_help {
                self.show_help = false;
            } else if self.zoom {
                self.zoom = false;
                reset_pan = true;
            }
        }
        reset_pan
    }

    fn keys_moves(&mut self, k: KeyPresses) -> (notices: Vec<Notice>)
        requires
            old(self)@.wf(),
        ensures
            (final(self)@, notices@) == old(self)@.keys_moves(k),
            final(self)@.wf(),
    {
        reveal(CullView::keys_moves);
        let mut notices: Vec<Notice> = Vec::new();
        if k.left {
            proof { lemma_steps_keep_wf(self@, -1); lemma_unit_walk_fits(self@, -1); }
            self.go(-1);
        }
        if k.right {
            proof { lemma_steps_keep_wf(self@, 1); lemma_unit_walk_fits(self@, 1); }
            self.go(1);
        }
        if k.next_unrated {
            let dir: i64 = if k.shift { -1 } else { 1 };
            proof { lemma_steps_keep_wf(self@, dir as int); lemma_unit_walk_fits(self@, dir as int); }
            let note = self.go_next_unrated(dir);
            match note {
                Some(x) => notices.push(x),
                None => {},
            }
            assert(notices@ == notice_seq(note));
        }
        notices
    }

    fn keys_star(&mut self, k: KeyPresses) -> (notices: Vec<Notice>)
        requires
            old(self)@.wf(),
        ensures
            (final(self)@, notices@) == old(self)@.keys_star(k),
            final(self)@.wf(),
    {
        reveal(CullView::keys_star);
        let mut notices: Vec<Notice> = Vec::new();
        match k.set_star {
            Some(s) => {
                let cur = self.current;
                let prev = self.rating_at(cur).stars;
                proof { lemma_edits_keep_wf(self@); }
                self.rate_current(s);
                if s == 0 && prev > 0 {
                    notices.push(Notice::ClearedRating { index: cur });
                }
                if self.auto_advance && s > 0 && self.view == model::View::Loupe {
                    proof { lemma_steps_keep_wf(self@, 1); lemma_unit_walk_fits(self@, 1); }
                    self.go(1);
                }
            },
            None => {},
        }
        notices
    }

    fn keys_reject(&mut self, k: KeyPresses) -> (notices: Vec<Notice>)
        requires
            old(self)@.wf(),
        ensures
            (final(self)@, notices@) == old(self)@.keys_reject(k),
            final(self)@.wf(),
    {
        reveal(CullView::keys_reject);
        let mut notices: Vec<Notice> = Vec::new();
        if k.toggle_reject {
            let cur = self.current;
            proof { lemma_edits_keep_wf(self@); }
            self.toggle_reject_current();
            let now_rejected = self.rating_at(cur).reject;
            if !now_rejected {
                notices.push(Notice::ClearedReject { index: cur });
            }
            if self.auto_advance && self.view == model::View::Loupe && now_rejected {
                proof { lemma_steps_keep_wf(self@, 1); lemma_unit_walk_fits(self@, 1); }
                self.go(1);
            }
        }
        notices
    }

    fn keys_view(&mut self, k: KeyPresses) -> (reset_pan: bool)
        requires
            old(self)@.wf(),
        ensures
            (final(self)@, reset_pan) == old(self)@.keys_view(k),
            final(self)@.wf(),
    {
        reveal(CullView::keys_view);
        if k.zoom {
            self.zoom = !self.zoom;
        }
        if k.grid {
            self.view = model::View::Grid;
        }
        if k.loupe {
            self.view = model::View::Loupe;
        }
        k.zoom
    }

    /// Apply one frame's key presses: the decisions behind every keyboard
    /// shortcut. The application performs what the outcome asks for (quit,
    /// copy, pan reset, notices) and restarts its save timer on an edit.
    pub fn apply_keys(&mut self, k: KeyPresses) -> (out: KeyOutcome)
        requires
            old(self)@.keys_ok(k),
        ensures
            (final(self)@, out@) == old(self)@.apply_keys(k),
            final(self)@.wf(),
    {
        let n = self.entries.len();
        let copy = if k.copy && self.current < n { Some(self.current) } else { None };
        self.keys_bins(k);
        let pan1 = self.keys_help(k);
        if self.show_help || n == 0 {
            return KeyOutcome { quit: k.quit, copy, reset_pan: pan1, edited: false, notices: Vec::new() };
        }
        let mut notices = self.keys_moves(k);
        let mut n2 = self.keys_star(k);
        let mut n3 = self.keys_reject(k);
        let pan2 = self.keys_view(k);
        notices.append(&mut n2);
        notices.append(&mut n3);
        KeyOutcome {
            quit: k.quit,
            copy,
            reset_pan: pan1 || pan2,
            edited: k.set_star.is_some() || k.toggle_reject,
            notices,
        }
    }
}


/// The idle gap, in nanoseconds, after the last rating edit before the
/// sidecar is written.
pub const SAVE_DEBOUNCE_NANOS: u128 = 600_000_000;

/// What the debounced save asks for on a frame.
#[derive(PartialEq, Eq, Structural, Clone, Copy, Debug)]
pub enum SaveStep {
    /// Nothing to write.
    Idle,
    /// Write the sidecar and the config now.
    Flush,
    /// Nothing yet: look again after this many nanoseconds.
    WaitNanos(u128),
}

/// Debounced persistence: with unsaved edits, write once they have settled
/// for the debounce gap, else wait out the rest of the gap.
pub fn save_step(dirty: bool, idle_nanos: u128) -> (step: SaveStep)
    ensures
        step == if !dirty {
            SaveStep::Idle
        } else if idle_nanos >= SAVE_DEBOUNCE_NANOS {
            SaveStep::Flush
        } else {
            SaveStep::WaitNanos((SAVE_DEBOUNCE_NANOS - idle_nanos) as u128)
        },
{
    if !dirty {
        SaveStep::Idle
    } else if idle_nanos >= SAVE_DEBOUNCE_NANOS {
        SaveStep::Flush
    } else {
        SaveStep::WaitNanos(SAVE_DEBOUNCE_NANOS - idle_nanos)
    }
}

/// Full-resolution frames kept resident on each side of the current image.
pub const WINDOW: usize = 6;

/// The loupe's residency window around `current` in a list of `n` images:
/// the kept index range `lo..=hi`, and the order to request frames in
/// (current first, then expanding outward).
pub struct WindowPlan {
    pub lo: usize,
    pub hi: usize,
    pub order: Vec<usize>,
}

/// The request order: `current`, then for each distance `d` from 1 up to
/// `WINDOW` the image `d` before (if any) and the image `d` after (if not
/// past `hi`).
pub open spec fn window_order(current: int, hi: int, d: int) -> Seq<usize>
    decreases d,
{
    if d <= 0 {
        seq![current as usize]
    } else {
        let prev = window_order(current, hi, d - 1);
        let with_before = if current >= d { prev.push((current - d) as usize) } else { prev };
        if current + d <= hi { with_before.push((current + d) as usize) } else { with_before }
    }
}

/// Keep exactly the frames within `WINDOW` of `current` resident, and
/// request the missing ones current-first.
pub fn window_plan(current: usize, n: usize) -> (plan: Option<WindowPlan>)
    requires
        current + WINDOW <= usize::MAX,
    ensures
        n == 0 ==> plan is None,
        n > 0 ==> (plan matches Some(p) && {
            &&& p.lo == if current >= WINDOW { current - WINDOW } else { 0 }
            &&& p.hi == if current + WINDOW <= n - 1 { current + WINDOW } else { n - 1 }
            &&& p.order@ == window_order(current as int, p.hi as int, WINDOW as int)
        }),
{
    if n == 0 {
        return None;
    }
    let lo = if current >= WINDOW { current - WINDOW } else { 0 };
    let hi = if current + WINDOW <= n - 1 { current + WINDOW } else { n - 1 };
    let mut order: Vec<usize> = Vec::new();
    order.push(current);
    let mut d: usize = 1;
    while d <= WINDOW
        invariant
            1 <= d <= WINDOW + 1,
            current + WINDOW <= usize::MAX,
            order@ == window_order(current as int, hi as int, d - 1),
        decreases WINDOW + 1 - d,
    {
        if current >= d {
            order.push(current - d);
        }
        if current + d <= hi {
            order.push(current + d);
        }
        d += 1;
    }
    Some(WindowPlan { lo, hi, order })
}

/// Number of images among the first `k` that are rated or rejected.
pub open spec fn reviewed_upto(v: CullView, k: int) -> nat
    decreases k,
{
    if k <= 0 {
        0
    } else {
        reviewed_upto(v, k - 1) + if v.rating_of(k - 1).is_handled() { 1nat } else { 0nat }
    }
}

/// Number of images among the first `k` that pass the filter.
pub open spec fn passing_upto(v: CullView, k: int) -> nat
    decreases k,
{
    if k <= 0 {
        0
    } else {
        passing_upto(v, k - 1) + if v.passes_at(k - 1) { 1nat } else { 0nat }
    }
}

/// The indices among the first `k` that pass the filter, in order.
pub open spec fn passing_indices(v: CullView, k: int) -> Seq<usize>
    decreases k,
{
    if k <= 0 {
        Seq::empty()
    } else if v.passes_at(k - 1) {
        passing_indices(v, k - 1).push((k - 1) as usize)
    } else {
        passing_indices(v, k - 1)
    }
}

/// The index of the first image whose name is `name` (`len` if none).
pub open spec fn position_of(entries: Seq<Entry>, name: Seq<char>, from: int) -> int
    decreases entries.len() - from,
{
    if from >= entries.len() || from < 0 {
        entries.len() as int
    } else if entries[from].name@ == name {
        from
    } else {
        position_of(entries, name, from + 1)
    }
}

/// Where a freshly opened folder starts: its last-viewed image if that
/// image is still there, else the first.
pub open spec fn resume_index(config: ConfigView, folder: Seq<char>, entries: Seq<Entry>) -> int {
    if config.last_image.contains_key(folder) {
        let p = position_of(entries, config.last_image[folder], 0);
        if p < entries.len() {
            p
        } else {
            0
        }
    } else {
        0
    }
}

impl CullView {
    /// The session after opening `folder` with its images and ratings: at the
    /// resume point, in the loupe, zoomed out, nothing pending, and the
    /// folder remembered as the last one.
    pub open spec fn opened(
        self,
        folder: Seq<char>,
        entries: Seq<Entry>,
        ratings: Map<Seq<char>, Rating>,
    ) -> CullView {
        CullView {
            entries,
            ratings,
            folder: Some(folder),
            current: resume_index(self.config, folder, entries),
            view: model::View::Loupe,
            zoom: false,
            dirty: false,
            config: ConfigView { last_folder: Some(folder), ..self.config },
            ..self
        }
    }

    /// Select image `j` (grid click): it becomes current and the resume point.
    pub open spec fn select(self, j: int) -> CullView {
        self.moved_to(j)
    }

    /// Open image `j` in the loupe, zoomed out (grid double click, timeline click).
    pub open spec fn open_in_loupe(self, j: int) -> CullView {
        CullView { view: model::View::Loupe, zoom: false, ..self }.moved_to(j)
    }
}

impl CullState {
    /// A session with no folder open and the default settings: filter
    /// "at least 0 stars, all", auto-advance on, 10-minute bins, keeper
    /// threshold 3, loupe view.
    pub fn new(config: ResumeConfig) -> (s: CullState)
        ensures
            s@.entries.len() == 0,
            s@.ratings == Map::<Seq<char>, Rating>::empty(),
            s@.folder == None::<Seq<char>>,
            s@.config == config@,
            !s@.dirty,
            s@.min_stars == 0,
            s@.star_filter_mode == StarFilterMode::Gte,
            s@.reject_filter == RejectFilter::All,
            s@.auto_advance,
            s@.bin_minutes == 10,
            s@.threshold == 3,
            s@.current == 0,
            s@.view == model::View::Loupe,
            !s@.zoom,
            !s@.show_help,
            s@.wf(),
    {
        CullState {
            entries: Vec::new(),
            ratings: NameMap::new(),
            folder: None,
            config,
            dirty: false,
            min_stars: 0,
            star_filter_mode: StarFilterMode::Gte,
            reject_filter: RejectFilter::All,
            auto_advance: true,
            bin_minutes: 10,
            threshold: 3,
            current: 0,
            view: model::View::Loupe,
            zoom: false,
            show_help: false,
        }
    }

    /// Switch to a freshly scanned folder and its loaded ratings, resuming at
    /// its last-viewed image. The application clears its textures, resets
    /// the pan and saves the config.
    pub fn open_folder(&mut self, folder: String, entries: Vec<Entry>, ratings: NameMap<Rating>)
        requires
            entries@.len() < max_entries(),
        ensures
            final(self)@ == old(self)@.opened(folder@, entries@, ratings@),
            final(self)@.wf(),
    {
        let ghost v0 = self@;
        let count = entries.len();
        assert(entries@.len() == count);
        let mut current: usize = 0;
        match self.config.last_image_of(&folder) {
            Some(name) => {
                let n = entries.len();
                let mut j: usize = 0;
                while j < n && !(entries[j].name == *name)
                    invariant
                        n == entries@.len(),
                        0 <= j <= n,
                        position_of(entries@, name@, 0) == position_of(entries@, name@, j as int),
                    decreases n - j,
                {
                    j += 1;
                }
                if j < n {
                    current = j;
                }
                proof {
                    lemma_position_of_range(entries@, name@, 0);
                }
            },
            None => {},
        }
        assert(current == resume_index(v0.config, folder@, entries@));
        self.last_folder_is(&folder);
        self.entries = entries;
        self.ratings = ratings;
        self.folder = Some(folder);
        self.current = current;
        self.view = model::View::Loupe;
        self.zoom = false;
        self.dirty = false;
        assert(self@.config =~= ConfigView { last_folder: Some(self@.folder->0), ..v0.config });
    }

    /// Record `folder` as the last folder.
    fn last_folder_is(&mut self, folder: &String)
        ensures
            final(self)@ == (CullView { config: ConfigView { last_folder: Some(folder@), ..old(self)@.config }, ..old(self)@ }),
    {
        self.config.last_folder = Some(folder.clone());
    }

    /// Full-list indices currently shown by the filter (grid order).
    pub fn filtered_indices(&self) -> (res: Vec<usize>)
        ensures
            res@ == passing_indices(self@, self@.len()),
    {
        let n = self.entries.len();
        let mut res: Vec<usize> = Vec::new();
        let mut i: usize = 0;
        while i < n
            invariant
                n == self@.len(),
                0 <= i <= n,
                res@ == passing_indices(self@, i as int),
            decreases n - i,
        {
            if self.passes_idx(i) {
                res.push(i);
            }
            i += 1;
        }
        res
    }

    /// How many images the filter shows.
    pub fn filtered_count(&self) -> (count: usize)
        ensures
            count == passing_upto(self@, self@.len()),
    {
        let n = self.entries.len();
        let mut count: usize = 0;
        let mut i: usize = 0;
        while i < n
            invariant
                n == self@.len(),
                0 <= i <= n,
                count == passing_upto(self@, i as int),
                count <= i,
            decreases n - i,
        {
            if self.passes_idx(i) {
                count += 1;
            }
            i += 1;
        }
        count
    }

    /// Review progress for the loupe status strip: images rated or rejected,
    /// the total, and the whole percentage reviewed (0 for an empty folder).
    pub fn review_progress(&self) -> (res: (usize, usize, usize))
        requires
            reviewed_upto(self@, self@.len()) * 100 <= usize::MAX,
        ensures
            res.0 == reviewed_upto(self@, self@.len()),
            res.1 == self@.len(),
            res.2 == (if self@.len() > 0 { (res.0 * 100) / (res.1 as int) } else { 0int }),
    {
        let n = self.entries.len();
        let mut reviewed: usize = 0;
        let mut i: usize = 0;
        while i < n
            invariant
                n == self@.len(),
                0 <= i <= n,
                reviewed == reviewed_upto(self@, i as int),
                reviewed <= i,
            decreases n - i,
        {
            if self.rating_at(i).handled() {
                reviewed += 1;
            }
            i += 1;
        }
        let pct = if n > 0 { reviewed * 100 / n } else { 0 };
        (reviewed, n, pct)
    }

    /// Select image `j` (grid click) and remember it as the resume point.
    pub fn select(&mut self, j: usize)
        ensures
            final(self)@ == old(self)@.select(j as int),
    {
        self.current = j;
        self.remember_position();
    }

    /// Open image `j` in the loupe, zoomed out (grid double click, timeline
    /// click), and remember it as the resume point.
    pub fn open_in_loupe(&mut self, j: usize)
        ensures
            final(self)@ == old(self)@.open_in_loupe(j as int),
    {
        self.current = j;
        self.view = model::View::Loupe;
        self.zoom = false;
        self.remember_position();
    }

    /// The ratings were written out.
    pub fn mark_saved(&mut self)
        ensures
            final(self)@ == (CullView { dirty: false, ..old(self)@ }),
    {
        self.dirty = false;
    }
}

/// The first-match search ends inside `from..=len`.
pub proof fn lemma_position_of_range(entries: Seq<Entry>, name: Seq<char>, from: int)
    requires
        0 <= from <= entries.len(),
    ensures
        from <= position_of(entries, name, from) <= entries.len(),
    decreases entries.len() - from,
{
    if from < entries.len() && entries[from].name@ != name {
        lemma_position_of_range(entries, name, from + 1);
    }
}


/// The coverage timeline of the session: where bins start, how wide they
/// are, the bins, and the bin of the current image.
pub struct Timeline {
    pub start: i64,
    pub bin_sec: i64,
    pub bins: Vec<TlBin>,
    pub current_bin: Option<usize>,
}

impl CullView {
    /// What the timeline is computed from: capture times, ratings, the bin
    /// width and the keeper threshold.
    pub open spec fn bin_input(self) -> BinInput {
        BinInput {
            times: self.entries.map_values(|e: Entry| e.capture_time),
            ratings: Seq::new(self.entries.len(), |j: int| self.rating_of(j)),
            bin_sec: self.bin_minutes * 60,
            threshold: self.threshold,
        }
    }
}

impl CullState {
    /// Is the session well formed: fewer images than the bound, and the
    /// current index inside the list (0 when it is empty)?
    pub fn well_formed(&self) -> (res: bool)
        ensures
            res == self@.wf(),
    {
        let n = self.entries.len();
        (n as u64) < 0x4000_0000_0000_0000u64 && if n == 0 {
            self.current == 0
        } else {
            self.current < n
        }
    }

    /// Can the time-bin jumps compute their bins: a nonzero bin width whose
    /// seconds fit in `i64`, and every capture time within `i64` of the
    /// first one?
    pub fn bins_computable(&self) -> (res: bool)
        ensures
            res == self@.bins_in_range(),
    {
        let ghost v = self@;
        if self.bin_minutes == 0 || self.bin_minutes > 153_722_867_280_912_930
            || self.bin_minutes < -153_722_867_280_912_930 {
            return false;
        }
        let n = self.entries.len();
        if n == 0 {
            return true;
        }
        let start = self.entries[0].capture_time;
        let mut i: usize = 0;
        while i < n
            invariant
                self@ == v,
                n == v.len(),
                n > 0,
                start == v.entries[0].capture_time,
                v.bin_minutes != 0,
                i64::MIN <= v.bin_seconds() <= i64::MAX,
                0 <= i <= n,
                forall|j: int|
                    0 <= j < i ==> i64::MIN <= #[trigger] v.entries[j].capture_time
                        - v.entries[0].capture_time <= i64::MAX,
            decreases n - i,
        {
            let d = (self.entries[i].capture_time as i128) - (start as i128);
            if d < -0x8000_0000_0000_0000i128 || d > 0x7fff_ffff_ffff_ffffi128 {
                assert(!(i64::MIN <= v.entries[i as int].capture_time - v.entries[0].capture_time
                    <= i64::MAX));
                return false;
            }
            i += 1;
        }
        true
    }

    /// Can a frame's keys be applied: the session is well formed, and the
    /// bins can be computed when a bin jump is asked for?
    pub fn keys_ok(&self, k: &KeyPresses) -> (res: bool)
        ensures
            res == self@.keys_ok(*k),
    {
        self.well_formed() && (!((k.bin_left || k.bin_right) && self.entries.len() > 0)
            || self.bins_computable())
    }

    /// Can the coverage timeline be computed: the bin arithmetic fits and the
    /// number of bins fits in `usize`?
    pub fn timeline_computable(&self) -> (res: bool)
        ensures
            res == self@.bin_input().computable(self.bin_minutes),
    {
        let ghost inp = self@.bin_input();
        let n = self.entries.len();
        let mut times: Vec<i64> = Vec::new();
        let mut i: usize = 0;
        while i < n
            invariant
                n == self@.len(),
                inp == self@.bin_input(),
                0 <= i <= n,
                times@ == inp.times.take(i as int),
            decreases n - i,
        {
            times.push(self.entries[i].capture_time);
            i += 1;
            assert(times@ =~= inp.times.take(i as int));
        }
        assert(times@ =~= inp.times);
        let ok = crate::timeline::span_ok(&times, self.bin_minutes);
        proof {
            let sp = BinInput { times: times@, ratings: Seq::empty(), bin_sec: self.bin_minutes * 60, threshold: 0 };
            assert(sp.start() == inp.start());
            assert(sp.count() == inp.count());
            assert(inp.times.len() == inp.ratings.len());
        }
        ok
    }

    /// Bin the folder for the coverage timeline (keepers counted at the
    /// keeper threshold, independent of the view filter).
    pub fn timeline(&self) -> (t: Timeline)
        requires
            self@.bin_input().computable(self.bin_minutes),
        ensures
            t.start == self@.bin_input().start(),
            t.bin_sec == self.bin_minutes * 60,
            t.bins@.len() == self@.bin_input().count(),
            forall|b: int| 0 <= b < t.bins@.len() ==> #[trigger] t.bins@[b] == self@.bin_input().bin(b),
            t.current_bin == if 0 <= self.current < self@.len() {
                Some(self@.bin_input().slot(self.current as int) as usize)
            } else {
                None::<usize>
            },
    {
        let ghost inp = self@.bin_input();
        let n = self.entries.len();
        let mut times: Vec<i64> = Vec::new();
        let mut ratings: Vec<Rating> = Vec::new();
        let mut i: usize = 0;
        while i < n
            invariant
                n == self@.len(),
                inp == self@.bin_input(),
                0 <= i <= n,
                times@ == inp.times.take(i as int),
                ratings@ == inp.ratings.take(i as int),
            decreases n - i,
        {
            times.push(self.entries[i].capture_time);
            ratings.push(self.rating_at(i));
            i += 1;
            assert(times@ =~= inp.times.take(i as int));
            assert(ratings@ =~= inp.ratings.take(i as int));
        }
        assert(times@ =~= inp.times);
        assert(ratings@ =~= inp.ratings);
        let bins = bin_timeline(&times, &ratings, self.bin_minutes, self.threshold);
        let start = if n > 0 { times[0] } else { 0 };
        let bin_sec = self.bin_minutes * 60;
        let count = bins.len();
        let current_bin = if self.current < n {
            let t = times[self.current];
            assert(i64::MIN <= inp.times[self.current as int] - inp.start() <= i64::MAX);
            let q = trunc_div(t - start, bin_sec);
            if q < 0 || q as u64 as u128 > (count - 1) as u128 {
                Some(count - 1)
            } else {
                Some(q as usize)
            }
        } else {
            None
        };
        Timeline { start, bin_sec, bins, current_bin }
    }
}

} // verus!
