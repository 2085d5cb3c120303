//! Properties of the library as a whole: what navigation guarantees, what a
//! save gives back, what the timeline and the loupe window keep.

use vstd::prelude::*;
use crate::model::{Rating, rating_or_blank, passes_spec};
use crate::model::StarFilterMode;
use crate::model::RejectFilter;
use crate::persist::pruned;
use crate::session::{KeyPresses, passing_indices, passing_upto, CullView, wrapped, window_order, resume_index, position_of, config_remember};
use crate::persist::ConfigView;
use crate::scan::Entry;
use crate::timeline::BinInput;
use vstd::arithmetic::div_mod::{lemma_fundamental_div_mod_converse_mod, lemma_small_mod};

verus! {

/// The stored rating for `name` in a ratings map, if any.
pub open spec fn lookup(m: Map<Seq<char>, Rating>, name: Seq<char>) -> Option<Rating> {
    if m.contains_key(name) {
        Some(m[name])
    } else {
        None
    }
}

/// An unrated image passes a filter exactly when a blank rating does.
pub proof fn law_unrated_counts_as_blank(min_stars: u8, mode: StarFilterMode, reject_filter: RejectFilter)
    ensures
        passes_spec(None, min_stars, mode, reject_filter) == passes_spec(
            Some(Rating::blank()),
            min_stars,
            mode,
            reject_filter,
        ),
{
}

/// Saving drops only blank ratings: reading the saved sidecar back gives
/// every image the rating it had (unrated and blank being the same).
pub proof fn law_saved_ratings_read_back(m: Map<Seq<char>, Rating>, name: Seq<char>)
    ensures
        rating_or_blank(lookup(pruned(m), name)) == rating_or_blank(lookup(m, name)),
{
}

/// Saving a sidecar that was read back changes nothing.
pub proof fn law_prune_idempotent(m: Map<Seq<char>, Rating>)
    ensures
        pruned(pruned(m)) == pruned(m),
{
    assert(pruned(pruned(m)) =~= pruned(m));
}


/// The step search finds the first passing step at or after `from`.
pub proof fn lemma_first_passing_step(v: CullView, delta: int, from: int)
    requires
        1 <= from,
    ensures
        ({
            let r = v.first_passing_step(delta, from);
            &&& r == 0 ==> forall|s: int|
                from <= s <= v.len() ==> !v.passes_at(#[trigger] wrapped(v.current, delta, s, v.len()))
            &&& r != 0 ==> from <= r <= v.len() && v.passes_at(wrapped(v.current, delta, r, v.len()))
                && forall|s: int|
                from <= s < r ==> !v.passes_at(#[trigger] wrapped(v.current, delta, s, v.len()))
        }),
    decreases v.len() + 1 - from,
{
    if from <= v.len() && !v.passes_at(wrapped(v.current, delta, from, v.len())) {
        lemma_first_passing_step(v, delta, from + 1);
    }
}

/// The unrated search finds the first unrated step at or after `from`.
pub proof fn lemma_first_unrated_step(v: CullView, dir: int, from: int)
    requires
        1 <= from,
    ensures
        ({
            let r = v.first_unrated_step(dir, from);
            &&& r == 0 ==> forall|s: int|
                from <= s <= v.len() ==> !v.unrated_at(#[trigger] wrapped(v.current, dir, s, v.len()))
            &&& r != 0 ==> from <= r <= v.len() && v.unrated_at(wrapped(v.current, dir, r, v.len()))
                && forall|s: int|
                from <= s < r ==> !v.unrated_at(#[trigger] wrapped(v.current, dir, s, v.len()))
        }),
    decreases v.len() + 1 - from,
{
    if from <= v.len() && !v.unrated_at(wrapped(v.current, dir, from, v.len())) {
        lemma_first_unrated_step(v, dir, from + 1);
    }
}

/// Walking one image at a time, in either direction, meets every image
/// within `n` steps.
pub proof fn lemma_walk_covers(cur: int, delta: int, n: int, j: int)
    requires
        0 <= cur < n,
        0 <= j < n,
        delta == 1 || delta == -1,
    ensures
        exists|s: int| 1 <= s <= n && #[trigger] wrapped(cur, delta, s, n) == j,
{
    if delta == 1 {
        if j > cur {
            let s = j - cur;
            lemma_fundamental_div_mod_converse_mod(cur + s, n, 0, j);
            assert(wrapped(cur, delta, s, n) == j);
        } else if j == cur {
            lemma_fundamental_div_mod_converse_mod(cur + n, n, 1, j);
            assert(wrapped(cur, delta, n, n) == j);
        } else {
            let s = n + j - cur;
            lemma_fundamental_div_mod_converse_mod(cur + s, n, 1, j);
            assert(wrapped(cur, delta, s, n) == j);
        }
    } else {
        if j < cur {
            let s = cur - j;
            lemma_fundamental_div_mod_converse_mod(cur - s, n, 0, j);
            assert(wrapped(cur, delta, s, n) == j);
        } else if j == cur {
            lemma_fundamental_div_mod_converse_mod(cur - n, n, -1, j);
            assert(wrapped(cur, delta, n, n) == j);
        } else {
            let s = n + cur - j;
            lemma_fundamental_div_mod_converse_mod(cur - s, n, -1, j);
            assert(wrapped(cur, delta, s, n) == j);
        }
    }
}

/// Arrow navigation honours the filter: when some image passes, an arrow
/// step lands on a passing image and every image it skipped fails the
/// filter; when none passes, nothing changes.
pub proof fn law_arrow_lands_on_passing(v: CullView, delta: int)
    requires
        v.wf(),
        v.len() > 0,
        delta == 1 || delta == -1,
    ensures
        (exists|j: int| 0 <= j < v.len() && #[trigger] v.passes_at(j)) ==> {
            let w = v.go(delta);
            &&& 0 <= w.current < v.len()
            &&& w.passes_at(w.current)
            &&& exists|s: int|
                1 <= s <= v.len() && w.current == wrapped(v.current, delta, s, v.len()) && forall|t: int|
                    1 <= t < s ==> !v.passes_at(#[trigger] wrapped(v.current, delta, t, v.len()))
        },
        (forall|j: int| 0 <= j < v.len() ==> !#[trigger] v.passes_at(j)) ==> v.go(delta) == v,
{
    lemma_first_passing_step(v, delta, 1);
    let r = v.first_passing_step(delta, 1);
    if exists|j: int| 0 <= j < v.len() && #[trigger] v.passes_at(j) {
        let j = choose|j: int| 0 <= j < v.len() && #[trigger] v.passes_at(j);
        lemma_walk_covers(v.current, delta, v.len(), j);
        let s = choose|s: int| 1 <= s <= v.len() && #[trigger] wrapped(v.current, delta, s, v.len()) == j;
        assert(r != 0);
        lemma_wrapped_range(v.current, delta, r, v.len());
    }
    if forall|j: int| 0 <= j < v.len() ==> !#[trigger] v.passes_at(j) {
        if r != 0 {
            lemma_wrapped_range(v.current, delta, r, v.len());
        }
    }
}

/// A wrapped index lies in `0..n`.
pub proof fn lemma_wrapped_range(cur: int, delta: int, s: int, n: int)
    requires
        n > 0,
    ensures
        0 <= wrapped(cur, delta, s, n) < n,
{
}

/// Stepping forward and then back returns to a passing image: the left
/// arrow undoes the right arrow.
pub proof fn law_left_undoes_right(v: CullView)
    requires
        v.wf(),
        v.len() > 0,
        v.passes_at(v.current),
    ensures
        v.go(1).go(-1).current == v.current,
{
    let n = v.len();
    let cur = v.current;
    lemma_first_passing_step(v, 1, 1);
    let s = v.first_passing_step(1, 1);
    lemma_small_mod(cur as nat, n as nat);
    assert(wrapped(cur, 1, n, n) == cur) by {
        lemma_fundamental_div_mod_converse_mod(cur + n, n, 1, cur);
    }
    assert(s != 0);
    let j = wrapped(cur, 1, s, n);
    let w = v.go(1);
    assert(w.current == j);
    lemma_first_passing_step(w, -1, 1);
    let k = (cur + s) / n;
    assert(0 <= k <= 1) by {
        assert(0 <= cur + s < 2 * n);
        if cur + s >= n {
            lemma_fundamental_div_mod_converse_mod(cur + s, n, 1, cur + s - n);
            vstd::arithmetic::div_mod::lemma_fundamental_div_mod_converse_div(cur + s, n, 1, cur + s - n);
        } else {
            vstd::arithmetic::div_mod::lemma_fundamental_div_mod_converse_div(cur + s, n, 0, cur + s);
        }
    }
    assert forall|t: int| 1 <= t <= s implies #[trigger] wrapped(j, -1, t, n) == wrapped(cur, 1, s - t, n) by {
        if cur + s >= n {
            lemma_fundamental_div_mod_converse_mod(cur + s, n, 1, cur + s - n);
            assert(j == cur + s - n);
            vstd::arithmetic::div_mod::lemma_mod_sub_multiples_vanish(cur + s - t, n);
            assert(j + (-1) * t == -n + (cur + s - t));
        } else {
            lemma_fundamental_div_mod_converse_mod(cur + s, n, 0, cur + s);
            assert(j == cur + s);
        }
    }
    assert(wrapped(cur, 1, 0, n) == cur);
    assert forall|t: int| 1 <= t < s implies !w.passes_at(#[trigger] wrapped(j, -1, t, n)) by {
        assert(wrapped(j, -1, t, n) == wrapped(cur, 1, s - t, n));
        assert(!v.passes_at(wrapped(cur, 1, s - t, n)));
    }
    assert(wrapped(j, -1, s, n) == cur);
    assert(w.passes_at(cur));
    let r = w.first_passing_step(-1, 1);
    if r != 0 && r < s {
        assert(!w.passes_at(wrapped(j, -1, r, n)));
    }
    assert(r == s);
}

/// N finds the next image still to review: when one is left it lands on it
/// (in the loupe, zoomed out); "all reviewed" is reported only when every
/// image is rated or rejected.
pub proof fn law_next_unrated_finds_work(v: CullView, dir: int)
    requires
        v.wf(),
        v.len() > 0,
        dir == 1 || dir == -1,
    ensures
        (exists|j: int| 0 <= j < v.len() && #[trigger] v.unrated_at(j)) ==> {
            let (w, note) = v.go_next_unrated(dir);
            &&& w.unrated_at(w.current)
            &&& w.view == crate::model::View::Loupe
            &&& !w.zoom
            &&& note matches Some(crate::session::Notice::Unrated { index, .. }) && index == w.current
        },
        (forall|j: int| 0 <= j < v.len() ==> !#[trigger] v.unrated_at(j)) ==> v.go_next_unrated(dir)
            == (v, Some(crate::session::Notice::AllReviewed)),
{
    lemma_first_unrated_step(v, dir, 1);
    let r = v.first_unrated_step(dir, 1);
    if exists|j: int| 0 <= j < v.len() && #[trigger] v.unrated_at(j) {
        let j = choose|j: int| 0 <= j < v.len() && #[trigger] v.unrated_at(j);
        lemma_walk_covers(v.current, dir, v.len(), j);
        let s = choose|s: int| 1 <= s <= v.len() && #[trigger] wrapped(v.current, dir, s, v.len()) == j;
        assert(r != 0);
        lemma_wrapped_range(v.current, dir, r, v.len());
    }
}


/// The forward bin search finds the first image at or after `j` in a later bin.
pub proof fn lemma_first_bin_after(v: CullView, j: int, b: int)
    requires
        0 <= j <= v.len(),
    ensures
        ({
            let r = v.first_bin_after(j, b);
            &&& j <= r <= v.len()
            &&& r < v.len() ==> v.bin(r) > b
            &&& forall|t: int| j <= t < r ==> #[trigger] v.bin(t) <= b
        }),
    decreases v.len() - j,
{
    if j < v.len() && !(v.bin(j) > b) {
        lemma_first_bin_after(v, j + 1, b);
    }
}

/// The backward bin search finds the last image before `j` in an earlier bin.
pub proof fn lemma_last_bin_before(v: CullView, j: int, b: int)
    requires
        0 <= j,
    ensures
        ({
            let r = v.last_bin_before(j, b);
            &&& -1 <= r < j
            &&& r >= 0 ==> v.bin(r) < b
            &&& forall|t: int| r < t < j ==> #[trigger] v.bin(t) >= b
        }),
    decreases j,
{
    if j > 0 && !(v.bin(j - 1) < b) {
        lemma_last_bin_before(v, j - 1, b);
    }
}

/// A run start begins the maximal run of images sharing image `j`'s bin.
pub proof fn lemma_run_start(v: CullView, j: int)
    requires
        0 <= j,
    ensures
        ({
            let r = v.run_start(j);
            &&& 0 <= r <= j
            &&& forall|t: int| r <= t <= j ==> #[trigger] v.bin(t) == v.bin(j)
            &&& (r == 0 || v.bin(r - 1) != v.bin(j))
        }),
    decreases j,
{
    if j >= 1 && v.bin(j - 1) == v.bin(j) {
        lemma_run_start(v, j - 1);
    }
}

/// Ctrl+Right jumps to the first image of the next later time bin; past the
/// last bin it wraps to the first image.
pub proof fn law_bin_jump_forward(v: CullView)
    requires
        v.wf(),
        v.len() > 0,
    ensures
        ({
            let w = v.go_bin(1);
            let cb = v.bin(v.current);
            &&& (exists|t: int| v.current < t < v.len() && #[trigger] v.bin(t) > cb) ==> {
                &&& v.current < w.current < v.len()
                &&& v.bin(w.current) > cb
                &&& forall|t: int| v.current < t < w.current ==> #[trigger] v.bin(t) <= cb
            }
            &&& (forall|t: int| v.current < t < v.len() ==> #[trigger] v.bin(t) <= cb) ==> w.current
                == 0
        }),
{
    let cb = v.bin(v.current);
    lemma_first_bin_after(v, v.current + 1, cb);
}

/// Ctrl+Left jumps to the first image of the previous earlier time bin
/// (the run of that bin's images just before the current one); before the
/// first bin it wraps to the first image of the last bin.
pub proof fn law_bin_jump_backward(v: CullView)
    requires
        v.wf(),
        v.len() > 0,
    ensures
        ({
            let w = v.go_bin(-1);
            let cb = v.bin(v.current);
            &&& (exists|t: int| 0 <= t < v.current && #[trigger] v.bin(t) < cb) ==> exists|j0: int|
                #![trigger v.bin(j0)]
                {
                    &&& w.current <= j0 < v.current
                    &&& v.bin(j0) < cb
                    &&& (forall|t: int| j0 < t < v.current ==> #[trigger] v.bin(t) >= cb)
                    &&& (forall|t: int| w.current <= t <= j0 ==> #[trigger] v.bin(t) == v.bin(j0))
                    &&& (w.current == 0 || v.bin(w.current - 1) != v.bin(j0))
                }
            &&& (forall|t: int| 0 <= t < v.current ==> #[trigger] v.bin(t) >= cb) ==> {
                &&& 0 <= w.current < v.len()
                &&& (forall|t: int| w.current <= t < v.len() ==> #[trigger] v.bin(t) == v.bin(v.len() - 1))
                &&& (w.current == 0 || v.bin(w.current - 1) != v.bin(v.len() - 1))
            }
        }),
{
    let cb = v.bin(v.current);
    lemma_last_bin_before(v, v.current, cb);
    let j = v.last_bin_before(v.current, cb);
    if j >= 0 {
        lemma_run_start(v, j);
        if exists|t: int| 0 <= t < v.current && #[trigger] v.bin(t) < cb {
            assert(v.go_bin(-1).current == v.run_start(j));
            assert(v.bin(j) < cb);
        }
    } else {
        lemma_run_start(v, v.len() - 1);
        if exists|t: int| 0 <= t < v.current && #[trigger] v.bin(t) < cb {
            let t = choose|t: int| 0 <= t < v.current && #[trigger] v.bin(t) < cb;
            assert(v.bin(t) >= cb);
        }
    }
}

/// Rating an image with stars also un-rejects it (a keeper isn't a
/// reject); clearing its stars keeps the reject flag. Images with other
/// names keep their ratings.
pub proof fn law_rating_unrejects(v: CullView, stars: u8, j: int)
    requires
        v.wf(),
        v.len() > 0,
        0 <= j < v.len(),
        v.entries[j].name@ != v.entries[v.current].name@,
    ensures
        stars > 0 ==> v.rate_current(stars).rating_of(v.current) == (Rating { stars, reject: false }),
        stars == 0 ==> v.rate_current(stars).rating_of(v.current) == (Rating {
            stars: 0,
            reject: v.rating_of(v.current).reject,
        }),
        v.rate_current(stars).rating_of(j) == v.rating_of(j),
        v.rate_current(stars).dirty,
{
}

/// Toggling the reject flag twice restores every image's rating.
pub proof fn law_reject_toggle_twice(v: CullView, j: int)
    requires
        v.wf(),
        0 <= j < v.len(),
    ensures
        v.toggle_reject_current().toggle_reject_current().rating_of(j) == v.rating_of(j),
{
}

/// What the window order holds after `d` rounds.
proof fn lemma_window_order(c: int, h: int, d: int)
    requires
        0 <= c <= h,
        0 <= d,
        h <= usize::MAX,
        c + d <= usize::MAX,
    ensures
        ({
            let s = window_order(c, h, d);
            let lo = if c >= d { c - d } else { 0 };
            let hi = if c + d <= h { c + d } else { h };
            &&& s.len() >= 1
            &&& s[0] == c
            &&& s.len() == hi - lo + 1
            &&& forall|x: usize| #[trigger] s.contains(x) <==> lo <= x <= hi
            &&& forall|a: int, b: int| 0 <= a < b < s.len() ==> s[a] != s[b]
        }),
    decreases d,
{
    if d > 0 {
        lemma_window_order(c, h, d - 1);
        let prev = window_order(c, h, d - 1);
        let with_before = if c >= d { prev.push((c - d) as usize) } else { prev };
        let s = window_order(c, h, d);
        assert(s == if c + d <= h { with_before.push((c + d) as usize) } else { with_before });
        assert forall|x: usize| #[trigger] s.contains(x) <==> (if c >= d { c - d } else { 0 }) <= x <= (if c + d <= h { c + d } else { h }) by {
            if s.contains(x) {
                let i = choose|i: int| 0 <= i < s.len() && s[i] == x;
                if i < prev.len() {
                    assert(prev.contains(x));
                }
            }
            if (if c >= d { c - d } else { 0 }) <= x <= (if c + d <= h { c + d } else { h }) {
                if c >= d && x == c - d {
                    assert(with_before[with_before.len() - 1] == x);
                    assert(s.contains(x)) by {
                        if c + d <= h {
                            assert(s[with_before.len() - 1] == x);
                        }
                    }
                } else if c + d <= h && x == c + d {
                    assert(s[s.len() - 1] == x);
                } else {
                    assert(prev.contains(x));
                    let i = choose|i: int| 0 <= i < prev.len() && prev[i] == x;
                    assert(s[i] == x);
                }
            }
        }
        assert forall|a: int, b: int| 0 <= a < b < s.len() implies s[a] != s[b] by {
            if b < prev.len() {
                assert(prev[a] != prev[b]);
            } else {
                if a < prev.len() {
                    assert(prev.contains(prev[a]));
                } else {
                }
            }
        }
    }
}

/// The loupe keeps exactly the frames within `WINDOW` of the current image
/// resident (so memory stays bounded): the request order starts with the
/// current image, names every index of the window once, and nothing else.
pub proof fn law_window_is_exact(current: int, n: int)
    requires
        0 <= current < n,
        n <= usize::MAX,
        current + 6 <= usize::MAX,
    ensures
        ({
            let lo = if current >= 6 { current - 6 } else { 0 };
            let hi = if current + 6 <= n - 1 { current + 6 } else { n - 1 };
            let s = window_order(current, hi, 6);
            &&& s[0] == current
            &&& s.len() == hi - lo + 1
            &&& s.len() <= 13
            &&& forall|x: usize| #[trigger] s.contains(x) <==> lo <= x <= hi
            &&& forall|a: int, b: int| 0 <= a < b < s.len() ==> s[a] != s[b]
        }),
{
    let hi = if current + 6 <= n - 1 { current + 6 } else { n - 1 };
    lemma_window_order(current, hi, 6);
}

/// Opening a folder after its position was remembered resumes at the
/// remembered image (its first occurrence), and remembers the folder.
pub proof fn law_resume_after_remember(
    c: ConfigView,
    folder: Seq<char>,
    entries: Seq<Entry>,
    j: int,
)
    requires
        0 <= j < entries.len(),
        forall|t: int| 0 <= t < j ==> #[trigger] entries[t].name@ != entries[j].name@,
    ensures
        resume_index(config_remember(c, folder, entries[j].name@), folder, entries) == j,
        config_remember(c, folder, entries[j].name@).last_folder == Some(folder),
{
    lemma_position_of_found(entries, entries[j].name@, 0, j);
}

/// The first-match search returns the first index carrying the name.
proof fn lemma_position_of_found(entries: Seq<Entry>, name: Seq<char>, from: int, j: int)
    requires
        0 <= from <= j < entries.len(),
        entries[j].name@ == name,
        forall|t: int| from <= t < j ==> #[trigger] entries[t].name@ != name,
    ensures
        position_of(entries, name, from) == j,
    decreases j - from,
{
    if from < j {
        lemma_position_of_found(entries, name, from + 1, j);
    }
}

/// Sum of the image counts of the bins below `c` after `k` images.
pub open spec fn total_sum(inp: BinInput, c: int, k: int) -> nat
    decreases c,
{
    if c <= 0 {
        0
    } else {
        total_sum(inp, c - 1, k) + inp.total_upto(c - 1, k)
    }
}

proof fn lemma_total_sum_zero(inp: BinInput, c: int)
    ensures
        total_sum(inp, c, 0) == 0,
    decreases c,
{
    if c > 0 {
        lemma_total_sum_zero(inp, c - 1);
    }
}

proof fn lemma_total_sum_step(inp: BinInput, c: int, k: int)
    requires
        k >= 1,
        c >= 0,
    ensures
        total_sum(inp, c, k) == total_sum(inp, c, k - 1) + if 0 <= inp.slot(k - 1) < c { 1nat } else { 0nat },
    decreases c,
{
    if c > 0 {
        lemma_total_sum_step(inp, c - 1, k);
    }
}

/// Every image falls in exactly one bin: the bins' image counts add up to
/// the number of images, and no bin has more keepers or reviewed images
/// than images.
pub proof fn law_timeline_counts_every_image_once(inp: BinInput, k: int)
    requires
        0 <= k <= inp.times.len(),
    ensures
        total_sum(inp, inp.count(), k) == k,
        forall|b: int| #![trigger inp.total_upto(b, k)] inp.covered_upto(b, k) <= inp.total_upto(b, k) && inp.handled_upto(b, k) <= inp.total_upto(b, k),
    decreases k,
{
    if k > 0 {
        law_timeline_counts_every_image_once(inp, k - 1);
        lemma_total_sum_step(inp, inp.count(), k);
        assert(0 <= inp.slot(k - 1) < inp.count());
    } else {
        lemma_total_sum_zero(inp, inp.count());
    }
    assert forall|b: int| #![trigger inp.total_upto(b, k)] inp.covered_upto(b, k) <= inp.total_upto(b, k) && inp.handled_upto(b, k) <= inp.total_upto(b, k) by {
        crate::timeline::lemma_tallies_bounded(inp, b, k);
    }
}

/// A bin's first image is the earliest image in that bin (clicking a bin
/// jumps there), and a bin has one exactly when it has images.
pub proof fn law_bin_first_image(inp: BinInput, b: int, k: int)
    requires
        0 <= k <= inp.times.len(),
        inp.times.len() <= usize::MAX,
    ensures
        (inp.first_upto(b, k) is Some) == (inp.total_upto(b, k) > 0),
        inp.first_upto(b, k) matches Some(x) ==> x < k && inp.slot(x as int) == b && forall|y: int|
            0 <= y < x ==> #[trigger] inp.slot(y) != b,
        inp.first_upto(b, k) is None ==> forall|y: int| 0 <= y < k ==> #[trigger] inp.slot(y) != b,
    decreases k,
{
    if k > 0 {
        law_bin_first_image(inp, b, k - 1);
    }
}


/// The grid's count of filtered images is the length of its list of
/// filtered images.
pub proof fn law_filtered_count_matches_list(v: CullView, k: int)
    requires
        0 <= k <= v.len(),
    ensures
        passing_indices(v, k).len() == passing_upto(v, k),
    decreases k,
{
    if k > 0 {
        law_filtered_count_matches_list(v, k - 1);
    }
}

/// While the help is open (and the keys neither toggle it nor press
/// Escape), keys rate nothing and change no view setting; only copy and
/// time-bin jumps get through.
pub proof fn law_help_swallows_keys(v: CullView, k: KeyPresses)
    requires
        v.wf(),
        v.show_help,
        !k.help,
        !k.esc,
    ensures
        ({
            let (w, out) = v.apply_keys(k);
            &&& w.ratings == v.ratings
            &&& w.view == v.view
            &&& w.zoom == v.zoom
            &&& w.show_help
            &&& !out.edited
            &&& out.notices.len() == 0
        }),
{
    reveal(CullView::keys_bins);
    reveal(CullView::keys_help);
    crate::session::lemma_go_bin_keeps_wf(v, -1);
    let v1 = if v.len() > 0 && k.bin_left { v.go_bin(-1) } else { v };
    crate::session::lemma_go_bin_keeps_wf(v1, 1);
}

/// The same session under another view filter.
pub open spec fn refiltered(v: CullView, min_stars: u8, mode: StarFilterMode, reject_filter: RejectFilter) -> CullView {
    CullView { min_stars, star_filter_mode: mode, reject_filter, ..v }
}

/// The forward bin search does not look at the filter.
proof fn lemma_first_bin_after_ignores(v: CullView, w: CullView, j: int, b: int)
    requires
        w.entries == v.entries,
        w.bin_minutes == v.bin_minutes,
    ensures
        w.first_bin_after(j, b) == v.first_bin_after(j, b),
    decreases v.len() - j,
{
    if j < v.len() {
        lemma_first_bin_after_ignores(v, w, j + 1, b);
    }
}

/// The backward bin search does not look at the filter.
proof fn lemma_last_bin_before_ignores(v: CullView, w: CullView, j: int, b: int)
    requires
        w.entries == v.entries,
        w.bin_minutes == v.bin_minutes,
    ensures
        w.last_bin_before(j, b) == v.last_bin_before(j, b),
    decreases j,
{
    if j > 0 {
        lemma_last_bin_before_ignores(v, w, j - 1, b);
    }
}

/// A run start does not depend on the filter.
proof fn lemma_run_start_ignores(v: CullView, w: CullView, j: int)
    requires
        w.entries == v.entries,
        w.bin_minutes == v.bin_minutes,
    ensures
        w.run_start(j) == v.run_start(j),
    decreases j,
{
    if j >= 1 {
        lemma_run_start_ignores(v, w, j - 1);
    }
}

/// The coverage timeline and the time-bin jumps ignore the view filter:
/// under any star threshold, comparison and reject filter the timeline's
/// input is the same (so it can be computed under one filter exactly when
/// under the other, and then gives the same bins and the same current bin),
/// and a bin jump lands on the same image.
pub proof fn law_timeline_ignores_filter(
    v: CullView,
    min_stars: u8,
    mode: StarFilterMode,
    reject_filter: RejectFilter,
    dir: int,
)
    ensures
        refiltered(v, min_stars, mode, reject_filter).bin_input() == v.bin_input(),
        refiltered(v, min_stars, mode, reject_filter).bin_input().computable(v.bin_minutes)
            == v.bin_input().computable(v.bin_minutes),
        forall|b: int| #[trigger] refiltered(v, min_stars, mode, reject_filter).bin_input().bin(b)
            == v.bin_input().bin(b),
        0 <= v.current < v.len() ==> refiltered(v, min_stars, mode, reject_filter).bin_input().slot(
            v.current,
        ) == v.bin_input().slot(v.current),
        refiltered(v, min_stars, mode, reject_filter).go_bin(dir).current == v.go_bin(dir).current,
{
    let w = refiltered(v, min_stars, mode, reject_filter);
    assert(w.bin_input().ratings =~= v.bin_input().ratings);
    assert(w.bin_input().times =~= v.bin_input().times);
    if v.len() > 0 {
        let cb = v.bin(v.current);
        lemma_first_bin_after_ignores(v, w, v.current + 1, cb);
        lemma_last_bin_before_ignores(v, w, v.current, cb);
        let j = v.last_bin_before(v.current, cb);
        lemma_run_start_ignores(v, w, j);
        lemma_run_start_ignores(v, w, v.len() - 1);
    }
}

/// The timeline input with image `j`'s reject flag set to `reject` (its
/// stars kept).
pub open spec fn with_reject_flag(inp: BinInput, j: int, reject: bool) -> BinInput {
    BinInput {
        ratings: inp.ratings.update(j, Rating { stars: inp.ratings[j].stars, reject }),
        ..inp
    }
}

/// The tallies over the first `k` images do not see image `j`'s reject flag
/// in the keeper count, nor at all in the image count.
proof fn lemma_tallies_ignore_reject_flag(inp: BinInput, j: int, reject: bool, b: int, k: int)
    requires
        0 <= j < inp.ratings.len(),
        0 <= k <= inp.ratings.len(),
    ensures
        with_reject_flag(inp, j, reject).covered_upto(b, k) == inp.covered_upto(b, k),
        with_reject_flag(inp, j, reject).total_upto(b, k) == inp.total_upto(b, k),
    decreases k,
{
    if k > 0 {
        lemma_tallies_ignore_reject_flag(inp, j, reject, b, k - 1);
        let w = with_reject_flag(inp, j, reject);
        assert(w.ratings[k - 1].stars == inp.ratings[k - 1].stars);
    }
}

/// Coverage counts stars only: changing an image's reject flag changes no
/// bin's image or keeper count.
pub proof fn law_coverage_ignores_reject_flag(inp: BinInput, j: int, reject: bool, b: int)
    requires
        inp.ratings.len() == inp.times.len(),
        0 <= j < inp.ratings.len(),
    ensures
        with_reject_flag(inp, j, reject).bin(b).covered == inp.bin(b).covered,
        with_reject_flag(inp, j, reject).bin(b).total == inp.bin(b).total,
{
    lemma_tallies_ignore_reject_flag(inp, j, reject, b, inp.times.len() as int);
}

/// Every image whose stars reach the threshold is a keeper of its bin: with
/// it among the first `k` images, its bin's keeper count is at least one
/// more than without it, whatever its reject flag.
pub proof fn law_keeper_counts_in_its_bin(inp: BinInput, k: int)
    requires
        0 < k <= inp.ratings.len(),
        inp.ratings[k - 1].stars >= inp.threshold,
    ensures
        inp.covered_upto(inp.slot(k - 1), k) == inp.covered_upto(inp.slot(k - 1), k - 1) + 1,
{
}

/// The bins that time-bin jumps go by are the coverage timeline's bins: for
/// images in capture order and a positive bin width, every image's jump bin
/// is its timeline slot at the session's bin width.
pub proof fn law_jump_bins_are_timeline_bins(v: CullView, j: int)
    requires
        v.bins_in_range(),
        v.bin_minutes > 0,
        crate::scan::chronological(v.entries),
        0 <= j < v.len(),
    ensures
        v.bin(j) == v.bin_input().slot(j),
{
    let inp = v.bin_input();
    let n = v.len();
    let bs = v.bin_minutes * 60;
    assert(inp.bin_sec == bs);
    assert(inp.times[j] == v.entries[j].capture_time);
    assert(inp.times[0] == v.entries[0].capture_time);
    assert(inp.times[n - 1] == v.entries[n - 1].capture_time);
    let t0 = v.entries[0].capture_time as int;
    let tj = v.entries[j].capture_time as int;
    let tn = v.entries[n - 1].capture_time as int;
    if j > 0 {
        assert(crate::scan::entry_le(v.entries[0], v.entries[j]));
    }
    if j < n - 1 {
        assert(crate::scan::entry_le(v.entries[j], v.entries[n - 1]));
    }
    assert(t0 <= tj <= tn);
    assert(0 <= (tj - t0) / bs) by {
        vstd::arithmetic::div_mod::lemma_div_pos_is_pos(tj - t0, bs);
    }
    assert((tj - t0) / bs <= (tn - t0) / bs) by {
        vstd::arithmetic::div_mod::lemma_div_is_ordered(tj - t0, tn - t0, bs);
    }
}

/// N moves forward and Shift+N backward: with only N pressed (help closed,
/// images present), the keys do exactly the unrated search in the direction
/// Shift picks, and report what it found.
pub proof fn law_n_searches_forward_shift_n_backward(v: CullView, k: KeyPresses)
    requires
        v.wf(),
        v.len() > 0,
        !v.show_help,
        k.next_unrated,
        !k.quit && !k.copy && !k.bin_left && !k.bin_right && !k.help && !k.esc,
        !k.left && !k.right && k.set_star is None && !k.toggle_reject,
        !k.zoom && !k.grid && !k.loupe,
    ensures
        v.apply_keys(k).0 == v.go_next_unrated(if k.shift { -1 } else { 1 }).0,
        v.apply_keys(k).1.notices == crate::session::notice_seq(
            v.go_next_unrated(if k.shift { -1 } else { 1 }).1,
        ),
        !k.shift ==> v.apply_keys(k).0 == v.go_next_unrated(1).0,
        k.shift ==> v.apply_keys(k).0 == v.go_next_unrated(-1).0,
{
    reveal(CullView::keys_bins);
    reveal(CullView::keys_help);
    reveal(CullView::keys_moves);
    reveal(CullView::keys_star);
    reveal(CullView::keys_reject);
    reveal(CullView::keys_view);
    let dir: int = if k.shift { -1 } else { 1 };
    crate::session::lemma_steps_keep_wf(v, dir);
    let (v3, n1) = v.keys_moves(k);
    assert(n1 + Seq::<crate::session::Notice>::empty() + Seq::<crate::session::Notice>::empty() =~= n1);
}

/// "Less than" is the exact complement of "at least": under the same
/// threshold every image passes one of the two star tests and not the
/// other; so an unrated image (0 stars) passes "less than m" exactly when
/// m is above 0.
pub proof fn law_less_than_complements_at_least(rating: Option<Rating>, min_stars: u8)
    ensures
        passes_spec(rating, min_stars, StarFilterMode::Lt, RejectFilter::All) == !passes_spec(
            rating,
            min_stars,
            StarFilterMode::Gte,
            RejectFilter::All,
        ),
        passes_spec(rating, min_stars, StarFilterMode::Lt, RejectFilter::All) == (rating_or_blank(
            rating,
        ).stars < min_stars),
        passes_spec(None, min_stars, StarFilterMode::Lt, RejectFilter::All) == (min_stars > 0),
{
}

/// X flips the current image's reject flag and keeps its stars, whatever
/// its rating; no other image's rating changes.
pub proof fn law_reject_toggle_flips_the_flag(v: CullView, j: int)
    requires
        v.wf(),
        v.len() > 0,
        0 <= j < v.len(),
    ensures
        v.toggle_reject_current().rating_of(v.current).reject != v.rating_of(v.current).reject,
        v.toggle_reject_current().rating_of(v.current).stars == v.rating_of(v.current).stars,
        v.entries[j].name@ != v.entries[v.current].name@ ==> v.toggle_reject_current().rating_of(j)
            == v.rating_of(j),
{
}

} // verus!
