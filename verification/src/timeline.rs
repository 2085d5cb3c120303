//! The coverage timeline: images binned by capture time, with per-bin counts
//! of images, keepers (stars at or above a threshold) and reviewed images.

use vstd::prelude::*;
use crate::arith::{tdiv, trunc_div};
use crate::model::Rating;

verus! {

/// One time bin of the timeline.
#[derive(Clone, Copy, Debug, PartialEq, Eq, Structural)]
pub struct TlBin {
    /// Images captured in the bin.
    pub total: usize,
    /// Of those, images with stars at or above the threshold.
    pub covered: usize,
    /// Of those, images rated or rejected.
    pub handled: usize,
    /// The first image (by list order) in the bin.
    pub first: Option<usize>,
}

/// What the timeline is computed from: the capture times and ratings of the
/// images in list order, the bin width in seconds and the keeper threshold.
pub struct BinInput {
    pub times: Seq<i64>,
    pub ratings: Seq<Rating>,
    pub bin_sec: int,
    pub threshold: u8,
}

impl BinInput {
    /// Capture time of the first image (0 when there is none).
    pub open spec fn start(self) -> int {
        if self.times.len() > 0 { self.times[0] as int } else { 0 }
    }

    /// Capture time of the last image (0 when there is none).
    pub open spec fn end(self) -> int {
        if self.times.len() > 0 { self.times.last() as int } else { 0 }
    }

    /// Number of bins: from the first to the last image's bin, at least one.
    pub open spec fn count(self) -> int {
        let c = tdiv(self.end() - self.start(), self.bin_sec) + 1;
        if c < 1 { 1 } else { c }
    }

    /// The bin of a capture time; times outside the range of bins (before
    /// the first image, or past the last bin) go to the last bin.
    pub open spec fn slot_of(self, t: int) -> int {
        let q = tdiv(t - self.start(), self.bin_sec);
        if q < 0 || q > self.count() - 1 { self.count() - 1 } else { q }
    }

    /// The bin of image `j`.
    pub open spec fn slot(self, j: int) -> int {
        self.slot_of(self.times[j] as int)
    }

    /// Images among the first `k` in bin `b`.
    pub open spec fn total_upto(self, b: int, k: int) -> nat
        decreases k,
    {
        if k <= 0 {
            0
        } else {
            self.total_upto(b, k - 1) + if self.slot(k - 1) == b { 1nat } else { 0nat }
        }
    }

    /// Keepers among the first `k` in bin `b`.
    pub open spec fn covered_upto(self, b: int, k: int) -> nat
        decreases k,
    {
        if k <= 0 {
            0
        } else {
            self.covered_upto(b, k - 1) + if self.slot(k - 1) == b && self.ratings[k - 1].stars
                >= self.threshold { 1nat } else { 0nat }
        }
    }

    /// Reviewed images among the first `k` in bin `b`.
    pub open spec fn handled_upto(self, b: int, k: int) -> nat
        decreases k,
    {
        if k <= 0 {
            0
        } else {
            self.handled_upto(b, k - 1) + if self.slot(k - 1) == b
                && self.ratings[k - 1].is_handled() { 1nat } else { 0nat }
        }
    }

    /// The first of the first `k` images that lies in bin `b`.
    pub open spec fn first_upto(self, b: int, k: int) -> Option<usize>
        decreases k,
    {
        if k <= 0 {
            None
        } else {
            match self.first_upto(b, k - 1) {
                Some(x) => Some(x),
                None => if self.slot(k - 1) == b { Some((k - 1) as usize) } else { None },
            }
        }
    }

    /// Bin `b` after tallying the first `k` images.
    pub open spec fn bin_upto(self, b: int, k: int) -> TlBin {
        TlBin {
            total: self.total_upto(b, k) as usize,
            covered: self.covered_upto(b, k) as usize,
            handled: self.handled_upto(b, k) as usize,
            first: self.first_upto(b, k),
        }
    }

    /// Bin `b` of the timeline.
    pub open spec fn bin(self, b: int) -> TlBin {
        self.bin_upto(b, self.times.len() as int)
    }

    /// The arithmetic fits: a nonzero bin width, time differences in `i64`,
    /// and a number of bins that can be allocated.
    pub open spec fn computable(self, bin_minutes: i64) -> bool {
        &&& bin_minutes != 0
        &&& self.bin_sec == bin_minutes * 60
        &&& i64::MIN <= self.bin_sec <= i64::MAX
        &&& self.times.len() == self.ratings.len()
        &&& forall|j: int|
            0 <= j < self.times.len() ==> i64::MIN <= #[trigger] self.times[j] - self.start() <= i64::MAX
        &&& self.count() <= usize::MAX
    }
}

/// The per-image tallies never exceed the number of images looked at.
pub proof fn lemma_tallies_bounded(inp: BinInput, b: int, k: int)
    requires
        0 <= k,
    ensures
        inp.total_upto(b, k) <= k,
        inp.covered_upto(b, k) <= inp.total_upto(b, k),
        inp.handled_upto(b, k) <= inp.total_upto(b, k),
    decreases k,
{
    if k > 0 {
        lemma_tallies_bounded(inp, b, k - 1);
    }
}

/// The bin of capture time `t`.
fn slot_exec(t: i64, start: i64, bin_sec: i64, count: usize, Ghost(inp): Ghost<BinInput>) -> (s: usize)
    requires
        bin_sec != 0,
        bin_sec % 60 == 0,
        inp.bin_sec == bin_sec,
        inp.start() == start,
        count as int == inp.count(),
        i64::MIN <= t - start <= i64::MAX,
    ensures
        s as int == inp.slot_of(t as int),
{
    let q = trunc_div(t - start, bin_sec);
    if q < 0 || q as u64 as u128 > (count - 1) as u128 {
        count - 1
    } else {
        q as usize
    }
}

/// The number of bins from `start` to `end` before it is raised to at least
/// one: the truncated quotient of the span by the bin width, plus one.
fn bin_count_raw(start: i64, end: i64, bin_sec: i64) -> (c: i64)
    requires
        bin_sec != 0,
        bin_sec % 60 == 0,
        i64::MIN <= end - start <= i64::MAX,
    ensures
        c == tdiv(end - start, bin_sec as int) + 1,
{
    let q = trunc_div(end - start, bin_sec);
    assert(-0x7fff_ffff_ffff_ffffint < q && q < 0x7fff_ffff_ffff_ffffint) by {
        assert(bin_sec >= 60 || bin_sec <= -60);
        assert(crate::arith::abs(end - start) / crate::arith::abs(bin_sec as int)
            <= crate::arith::abs(end - start) / 60) by {
            vstd::arithmetic::div_mod::lemma_div_is_ordered_by_denominator(
                crate::arith::abs(end - start),
                60,
                crate::arith::abs(bin_sec as int),
            );
        }
        assert(crate::arith::abs(end - start) / 60 <= 0x8000_0000_0000_0000int / 60) by {
            vstd::arithmetic::div_mod::lemma_div_is_ordered(
                crate::arith::abs(end - start),
                0x8000_0000_0000_0000,
                60,
            );
        }
    }
    q + 1
}

/// The bin arithmetic over these capture times fits: a nonzero bin width
/// whose seconds fit in `i64`, every time within `i64` of the first one, and
/// a number of bins that fits in `usize`.
pub open spec fn span_computable(times: Seq<i64>, bin_minutes: i64) -> bool {
    let inp = BinInput { times, ratings: Seq::empty(), bin_sec: bin_minutes * 60, threshold: 0 };
    &&& bin_minutes != 0
    &&& i64::MIN <= bin_minutes * 60 <= i64::MAX
    &&& forall|j: int|
        0 <= j < times.len() ==> i64::MIN <= #[trigger] times[j] - inp.start() <= i64::MAX
    &&& inp.count() <= usize::MAX
}

/// Is the bin arithmetic over these capture times computable?
pub(crate) fn span_ok(times: &Vec<i64>, bin_minutes: i64) -> (res: bool)
    ensures
        res == span_computable(times@, bin_minutes),
{
    let ghost inp = BinInput { times: times@, ratings: Seq::empty(), bin_sec: bin_minutes * 60, threshold: 0 };
    if bin_minutes == 0 || bin_minutes > 153_722_867_280_912_930 || bin_minutes < -153_722_867_280_912_930 {
        return false;
    }
    let bin_sec = bin_minutes * 60;
    let n = times.len();
    let start = if n > 0 { times[0] } else { 0 };
    let mut i: usize = 0;
    while i < n
        invariant
            n == times@.len(),
            start == inp.start(),
            inp.times == times@,
            0 <= i <= n,
            forall|j: int| 0 <= j < i ==> i64::MIN <= #[trigger] times@[j] - inp.start() <= i64::MAX,
        decreases n - i,
    {
        let d = (times[i] as i128) - (start as i128);
        if d < -0x8000_0000_0000_0000i128 || d > 0x7fff_ffff_ffff_ffffi128 {
            assert(!(i64::MIN <= times@[i as int] - inp.start() <= i64::MAX));
            return false;
        }
        i += 1;
    }
    let end = if n > 0 { times[n - 1] } else { 0 };
    assert(i64::MIN <= end - start <= i64::MAX) by {
        if n > 0 {
            assert(i64::MIN <= times@[n - 1] - inp.start() <= i64::MAX);
        }
    }
    let c = bin_count_raw(start, end, bin_sec);
    c < 1 || (c as u64) <= (usize::MAX as u64)
}

/// Is the bin arithmetic that `bin_timeline` needs computable for these
/// images, bin width and keeper threshold?
pub fn timeline_computable(times: &Vec<i64>, ratings: &Vec<Rating>, bin_minutes: i64, threshold: u8) -> (res: bool)
    ensures
        res == (BinInput { times: times@, ratings: ratings@, bin_sec: bin_minutes * 60, threshold }).computable(bin_minutes),
{
    times.len() == ratings.len() && span_ok(times, bin_minutes)
}

/// Bin the images: one bin per `bin_minutes` from the first image's capture
/// time to the last one's, each counting its images, its keepers (stars at
/// or above `threshold`) and its reviewed images, and naming its first image.
pub fn bin_timeline(times: &Vec<i64>, ratings: &Vec<Rating>, bin_minutes: i64, threshold: u8) -> (bins: Vec<TlBin>)
    requires
        (BinInput { times: times@, ratings: ratings@, bin_sec: bin_minutes * 60, threshold }).computable(bin_minutes),
    ensures
        bins@.len() == (BinInput { times: times@, ratings: ratings@, bin_sec: bin_minutes * 60, threshold }).count(),
        forall|b: int|
            0 <= b < bins@.len() ==> #[trigger] bins@[b] == (BinInput {
                times: times@,
                ratings: ratings@,
                bin_sec: bin_minutes * 60,
                threshold,
            }).bin(b),
{
    let ghost inp = BinInput { times: times@, ratings: ratings@, bin_sec: bin_minutes * 60, threshold };
    let n = times.len();
    let start = if n > 0 { times[0] } else { 0 };
    let end = if n > 0 { times[n - 1] } else { 0 };
    let bin_sec = bin_minutes * 60;
    assert(i64::MIN <= end - start <= i64::MAX) by {
        if n > 0 {
            assert(i64::MIN <= inp.times[n - 1] - inp.start() <= i64::MAX);
        }
    }
    let c = bin_count_raw(start, end, bin_sec);
    let count: usize = if c < 1 { 1 } else { c as u64 as usize };
    assert(count as int == inp.count());
    let mut bins: Vec<TlBin> = Vec::new();
    let mut b: usize = 0;
    while b < count
        invariant
            count as int == inp.count(),
            0 <= b <= count,
            bins@.len() == b,
            forall|x: int| 0 <= x < b ==> #[trigger] bins@[x] == inp.bin_upto(x, 0),
        decreases count - b,
    {
        bins.push(TlBin { total: 0, covered: 0, handled: 0, first: None });
        b += 1;
    }
    let mut idx: usize = 0;
    while idx < n
        invariant
            n == times@.len(),
            times@ == inp.times,
            ratings@ == inp.ratings,
            inp.computable(bin_minutes),
            inp.threshold == threshold,
            bin_sec == inp.bin_sec,
            start == inp.start(),
            count as int == inp.count(),
            0 <= idx <= n,
            bins@.len() == count,
            forall|x: int| 0 <= x < count ==> #[trigger] bins@[x] == inp.bin_upto(x, idx as int),
        decreases n - idx,
    {
        assert(i64::MIN <= inp.times[idx as int] - inp.start() <= i64::MAX);
        let s = slot_exec(times[idx], start, bin_sec, count, Ghost(inp));
        assert(s as int == inp.slot(idx as int));
        proof {
            lemma_tallies_bounded(inp, s as int, idx as int);
        }
        let r = ratings[idx];
        let old = bins[s];
        let nb = TlBin {
            total: old.total + 1,
            covered: if r.stars >= threshold { old.covered + 1 } else { old.covered },
            handled: if r.stars > 0 || r.reject { old.handled + 1 } else { old.handled },
            first: match old.first {
                Some(f) => Some(f),
                None => Some(idx),
            },
        };
        bins.set(s, nb);
        idx += 1;
        assert forall|x: int| 0 <= x < count implies #[trigger] bins@[x] == inp.bin_upto(x, idx as int) by {
            if x != s {
                assert(bins@[x] == inp.bin_upto(x, idx - 1));
            }
        }
    }
    bins
}

/// Two decimal digits of `x` (0..99).
pub open spec fn two_digits(x: int) -> Seq<char> {
    seq![(48 + x / 10) as char, (48 + x % 10) as char]
}

/// `HH:MM` of the time of day (UTC) at `secs` seconds since the epoch.
pub open spec fn clock_text(secs: int) -> Seq<char> {
    let s = secs % 86400;
    two_digits(s / 3600) + seq![':'] + two_digits((s % 3600) / 60)
}

/// The instants chrono's `DateTime<Utc>` represents, in epoch seconds: from
/// the first second of year -262143 to the last second of year 262142
/// (chrono's `MIN_YEAR` and `MAX_YEAR`).
pub open spec fn representable_instant(secs: int) -> bool {
    -8_334_601_228_800 <= secs <= 8_210_266_876_799
}

/// `chrono::DateTime::<Utc>::from_timestamp(secs, 0)` formatted with
/// `"%H:%M"`: the zero-padded UTC clock time for every instant chrono
/// represents, and empty text for the others (where chrono gives `None`).
#[verifier::external_body]
fn hhmm(secs: i64) -> (res: String)
    ensures
        res@ == if representable_instant(secs as int) {
            clock_text(secs as int)
        } else {
            Seq::<char>::empty()
        },
{
    match chrono::DateTime::from_timestamp(secs, 0) {
        Some(d) => d.format("%H:%M").to_string(),
        None => String::new(),
    }
}

/// The `HH:MM` label of bin `bin`: the clock time at which it starts (empty
/// when that instant lies outside the range chrono represents).
pub fn bin_start_label(start: i64, bin: usize, bin_sec: i64) -> (res: String)
    requires
        i64::MIN <= start + bin * bin_sec <= i64::MAX,
    ensures
        res@ == if representable_instant(start + bin * bin_sec) {
            clock_text(start + bin * bin_sec)
        } else {
            Seq::<char>::empty()
        },
{
    let b = bin as i128;
    let bs = bin_sec as i128;
    assert(-0x8000_0000_0000_0000_0000_0000_0000_0000int < b * bs < 0x7fff_ffff_ffff_ffff_ffff_ffff_ffff_ffffint) by (nonlinear_arith)
        requires
            0 <= b < 0x1_0000_0000_0000_0000int,
            -0x8000_0000_0000_0000int <= bs < 0x8000_0000_0000_0000int,
    ;
    let t = (start as i128) + b * bs;
    hhmm(t as i64)
}

} // verus!
