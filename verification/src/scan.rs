//! One image of a folder, and what the folder scan computes from the files'
//! bytes: the EXIF block (capture time, orientation, the embedded
//! thumbnail), and the chronological order. Listing the folder and reading
//! the files is the application's job.

use vstd::prelude::*;
use crate::names::chars_of;
use crate::persist::opt_view;
use exif::{In, Tag};

verus! {

/// One image of the folder being culled.
pub struct Entry {
    /// File name within the folder.
    pub name: String,
    /// Epoch seconds: the chronological sort key and timeline position.
    pub capture_time: i64,
    /// EXIF orientation tag (1-8; 1 when absent).
    pub orientation: u16,
}

/// Is `a` before `b` in lexicographic order of code points (a proper prefix
/// comes first)? For valid UTF-8 this is the order of `str`'s bytes.
pub open spec fn lex_less(a: Seq<char>, b: Seq<char>) -> bool
    decreases a.len(),
{
    if a.len() == 0 {
        b.len() > 0
    } else if b.len() == 0 {
        false
    } else if (a[0] as u32) != (b[0] as u32) {
        (a[0] as u32) < (b[0] as u32)
    } else {
        lex_less(a.drop_first(), b.drop_first())
    }
}

/// `a` is not after `b`.
pub open spec fn lex_le(a: Seq<char>, b: Seq<char>) -> bool {
    !lex_less(b, a)
}

/// The chronological order: by capture time, then by file name.
pub open spec fn entry_le(a: Entry, b: Entry) -> bool {
    a.capture_time < b.capture_time || (a.capture_time == b.capture_time && lex_le(
        a.name@,
        b.name@,
    ))
}

/// Sorted by capture time, then by name.
pub open spec fn chronological(s: Seq<Entry>) -> bool {
    forall|i: int, j: int| 0 <= i < j < s.len() ==> entry_le(#[trigger] s[i], #[trigger] s[j])
}

/// Lexicographic order is total.
pub proof fn lemma_lex_total(a: Seq<char>, b: Seq<char>)
    ensures
        lex_le(a, b) || lex_le(b, a),
    decreases a.len(),
{
    if a.len() > 0 && b.len() > 0 && (a[0] as u32) == (b[0] as u32) {
        lemma_lex_total(a.drop_first(), b.drop_first());
    }
}

/// Lexicographic order is transitive.
pub proof fn lemma_lex_trans(a: Seq<char>, b: Seq<char>, c: Seq<char>)
    requires
        lex_le(a, b),
        lex_le(b, c),
    ensures
        lex_le(a, c),
    decreases a.len(),
{
    if a.len() == 0 || c.len() == 0 {
    } else if b.len() == 0 {
    } else {
        let (x, y, z) = (a[0] as u32, b[0] as u32, c[0] as u32);
        if x == y && y == z {
            lemma_lex_trans(a.drop_first(), b.drop_first(), c.drop_first());
        }
    }
}

/// The chronological order is total and transitive.
pub proof fn lemma_entry_order(a: Entry, b: Entry, c: Entry)
    ensures
        entry_le(a, b) || entry_le(b, a),
        entry_le(a, b) && entry_le(b, c) ==> entry_le(a, c),
{
    lemma_lex_total(a.name@, b.name@);
    if entry_le(a, b) && entry_le(b, c) && a.capture_time == b.capture_time
        && b.capture_time == c.capture_time {
        lemma_lex_trans(a.name@, b.name@, c.name@);
    }
}

/// No text comes before itself.
pub proof fn lemma_lex_irreflexive(a: Seq<char>)
    ensures
        !lex_less(a, a),
    decreases a.len(),
{
    if a.len() > 0 {
        lemma_lex_irreflexive(a.drop_first());
    }
}

/// The strict order is transitive.
pub proof fn lemma_lex_less_trans(a: Seq<char>, b: Seq<char>, c: Seq<char>)
    requires
        lex_less(a, b),
        lex_less(b, c),
    ensures
        lex_less(a, c),
    decreases a.len(),
{
    if a.len() > 0 && b.len() > 0 && c.len() > 0 && (a[0] as u32) == (b[0] as u32) && (b[0] as u32)
        == (c[0] as u32) {
        lemma_lex_less_trans(a.drop_first(), b.drop_first(), c.drop_first());
    }
}

/// Two different texts are ordered one way or the other.
pub proof fn lemma_lex_trichotomy(a: Seq<char>, b: Seq<char>)
    ensures
        a == b || lex_less(a, b) || lex_less(b, a),
    decreases a.len(),
{
    if a.len() > 0 && b.len() > 0 && (a[0] as u32) == (b[0] as u32) {
        lemma_lex_trichotomy(a.drop_first(), b.drop_first());
        if a.drop_first() == b.drop_first() {
            vstd::utf8::char_u32_cast(a[0], a[0] as u32);
            vstd::utf8::char_u32_cast(b[0], b[0] as u32);
            assert(a[0] == b[0]);
            assert(a =~= seq![a[0]] + a.drop_first());
            assert(b =~= seq![b[0]] + b.drop_first());
        }
    } else if a.len() == 0 && b.len() == 0 {
        assert(a =~= b);
    }
}

/// Three-way comparison of character vectors in the lexicographic order:
/// negative, zero or positive as `a` comes before, equals or comes after `b`.
pub fn lex_compare(a: &Vec<char>, b: &Vec<char>) -> (r: i8)
    ensures
        r < 0 <==> lex_less(a@, b@),
        r == 0 <==> a@ == b@,
        r > 0 <==> lex_less(b@, a@),
{
    proof {
        lemma_lex_irreflexive(a@);
        lemma_lex_trichotomy(a@, b@);
        lemma_lex_total(a@, b@);
    }
    let ab = lex_le_exec(a, b);
    let ba = lex_le_exec(b, a);
    if ab && ba {
        0
    } else if ab {
        -1
    } else {
        1
    }
}

/// `lex_le(a, b)` on character vectors.
fn lex_le_exec(a: &Vec<char>, b: &Vec<char>) -> (res: bool)
    ensures
        res == lex_le(a@, b@),
{
    let mut i: usize = 0;
    assert(a@.skip(0) =~= a@);
    assert(b@.skip(0) =~= b@);
    while i < a.len() && i < b.len() && (a[i] as u32) == (b[i] as u32)
        invariant
            0 <= i <= a@.len(),
            i <= b@.len(),
            lex_less(b@, a@) == lex_less(b@.skip(i as int), a@.skip(i as int)),
        decreases a@.len() - i,
    {
        assert(b@.skip(i as int).drop_first() =~= b@.skip(i + 1));
        assert(a@.skip(i as int).drop_first() =~= a@.skip(i + 1));
        i += 1;
    }
    if i == a.len() {
        assert(a@.skip(i as int).len() == 0);
        true
    } else if i == b.len() {
        assert(b@.skip(i as int).len() == 0);
        false
    } else {
        assert(b@.skip(i as int)[0] == b@[i as int]);
        assert(a@.skip(i as int)[0] == a@[i as int]);
        (a[i] as u32) < (b[i] as u32)
    }
}

/// The entries in chronological order (by capture time, then by name), as
/// the scan presents a folder.
pub fn sort_entries(entries: Vec<Entry>) -> (res: Vec<Entry>)
    ensures
        chronological(res@),
        res@.to_multiset() == entries@.to_multiset(),
{
    broadcast use vstd::seq_lib::group_to_multiset_ensures;

    let ghost all = entries@;
    let mut rest = entries;
    let mut res: Vec<Entry> = Vec::new();
    let mut keys: Vec<Vec<char>> = Vec::new();
    while rest.len() > 0
        invariant
            chronological(res@),
            keys@.len() == res@.len(),
            forall|q: int| 0 <= q < keys@.len() ==> (#[trigger] keys@[q])@ == res@[q].name@,
            res@.to_multiset().add(rest@.to_multiset()) == all.to_multiset(),
        decreases rest@.len(),
    {
        let ghost before_rest = rest@;
        let x = rest.remove(0);
        proof {
            vstd::seq_lib::to_multiset_remove(before_rest, 0);
            assert(before_rest.contains(x));
        }
        let xk = chars_of(x.name.as_str());
        let n = res.len();
        let mut p: usize = 0;
        while p < n && (res[p].capture_time < x.capture_time || (res[p].capture_time
            == x.capture_time && lex_le_exec(&keys[p], &xk)))
            invariant
                n == res@.len(),
                keys@.len() == n,
                forall|q: int| 0 <= q < keys@.len() ==> (#[trigger] keys@[q])@ == res@[q].name@,
                xk@ == x.name@,
                0 <= p <= n,
                forall|q: int| 0 <= q < p ==> entry_le(#[trigger] res@[q], x),
            decreases n - p,
        {
            p += 1;
        }
        let ghost old_res = res@;
        let ghost old_keys = keys@;
        proof {
            if p < n {
                assert(!entry_le(old_res[p as int], x));
                lemma_entry_order(old_res[p as int], x, x);
            }
            assert forall|q: int| p <= q < n implies entry_le(x, #[trigger] old_res[q]) by {
                lemma_entry_order(x, old_res[p as int], old_res[q]);
                if q > p {
                    assert(entry_le(old_res[p as int], old_res[q]));
                }
            }
            vstd::seq_lib::to_multiset_insert(old_res, p as int, x);
        }
        let ghost ms_rest = rest@.to_multiset();
        res.insert(p, x);
        keys.insert(p, xk);
        proof {
            broadcast use vstd::multiset::group_multiset_axioms;
            let rm = before_rest.to_multiset();
            let am = old_res.to_multiset();
            before_rest.to_multiset_ensures();
            assert(before_rest[0] == x);
            assert(rm.count(x) > 0);
            assert(rest@ == before_rest.remove(0));
            assert(res@ == old_res.insert(p as int, x));
            assert(rm.remove(x).insert(x) =~= rm);
            assert(am.insert(x).add(rm.remove(x)) =~= am.add(rm));
            assert(res@.to_multiset().add(rest@.to_multiset()) =~= all.to_multiset());
            assert forall|a: int, b: int| 0 <= a < b < res@.len() implies entry_le(
                #[trigger] res@[a],
                #[trigger] res@[b],
            ) by {
                if a < p && b == p {
                } else if a == p && b > p {
                    assert(res@[b] == old_res[b - 1]);
                } else if a < p && b > p {
                    assert(res@[b] == old_res[b - 1]);
                    assert(entry_le(old_res[a], old_res[b - 1]));
                } else if b < p {
                    assert(entry_le(old_res[a], old_res[b]));
                } else {
                    assert(res@[a] == old_res[a - 1]);
                    assert(res@[b] == old_res[b - 1]);
                    assert(entry_le(old_res[a - 1], old_res[b - 1]));
                }
            }
            assert forall|q: int| 0 <= q < keys@.len() implies (#[trigger] keys@[q])@ == res@[q].name@ by {
                if q > p {
                    assert(keys@[q] == old_keys[q - 1]);
                    assert(res@[q] == old_res[q - 1]);
                } else if q < p {
                    assert(keys@[q] == old_keys[q]);
                    assert(res@[q] == old_res[q]);
                }
            }
        }
    }
    res
}


/// Unicode `White_Space`, the characters `char::is_whitespace` accepts.
pub open spec fn is_white_space(c: char) -> bool {
    let u = c as u32;
    ||| 0x09 <= u <= 0x0d
    ||| u == 0x20
    ||| u == 0x85
    ||| u == 0xa0
    ||| u == 0x1680
    ||| 0x2000 <= u <= 0x200a
    ||| u == 0x2028
    ||| u == 0x2029
    ||| u == 0x202f
    ||| u == 0x205f
    ||| u == 0x3000
}

/// The text without leading white space.
pub open spec fn trim_start(s: Seq<char>) -> Seq<char>
    decreases s.len(),
{
    if s.len() > 0 && is_white_space(s[0]) {
        trim_start(s.drop_first())
    } else {
        s
    }
}

/// The text without trailing white space.
pub open spec fn trim_end(s: Seq<char>) -> Seq<char>
    decreases s.len(),
{
    if s.len() > 0 && is_white_space(s.last()) {
        trim_end(s.drop_last())
    } else {
        s
    }
}

/// The text without leading and trailing white space (`str::trim`).
pub open spec fn trimmed(s: Seq<char>) -> Seq<char> {
    trim_end(trim_start(s))
}

fn is_white_space_exec(c: char) -> (res: bool)
    ensures
        res == is_white_space(c),
{
    let u = c as u32;
    (0x09 <= u && u <= 0x0d) || u == 0x20 || u == 0x85 || u == 0xa0 || u == 0x1680 || (0x2000 <= u
        && u <= 0x200a) || u == 0x2028 || u == 0x2029 || u == 0x202f || u == 0x205f || u == 0x3000
}

/// The text without leading and trailing white space.
pub fn trim(s: &str) -> (res: String)
    ensures
        res@ == trimmed(s@),
{
    let cs = chars_of(s);
    let n = cs.len();
    let mut a: usize = 0;
    assert(cs@.subrange(0, n as int) =~= cs@);
    while a < n && is_white_space_exec(cs[a])
        invariant
            n == cs@.len(),
            0 <= a <= n,
            trim_start(cs@) == trim_start(cs@.subrange(a as int, n as int)),
        decreases n - a,
    {
        assert(cs@.subrange(a as int, n as int).drop_first() =~= cs@.subrange(a + 1, n as int));
        a += 1;
    }
    let mut b: usize = n;
    assert(cs@.subrange(a as int, n as int).subrange(0, (b - a) as int) =~= cs@.subrange(a as int, b as int));
    while b > a && is_white_space_exec(cs[b - 1])
        invariant
            n == cs@.len(),
            0 <= a <= b <= n,
            trim_start(cs@) == trim_start(cs@.subrange(a as int, n as int)),
            trim_end(trim_start(cs@)) == trim_end(cs@.subrange(a as int, b as int)),
        decreases b - a,
    {
        assert(cs@.subrange(a as int, b as int).drop_last() =~= cs@.subrange(a as int, b - 1));
        b -= 1;
    }
    crate::names::text_of(&cs, a, b)
}

/// What `chrono::NaiveDateTime::parse_from_str(text, "%Y:%m:%d %H:%M:%S")`
/// gives as UTC epoch seconds (`None` when the text does not parse).
pub uninterp spec fn exif_datetime_seconds(text: Seq<char>) -> Option<i64>;

/// `chrono::NaiveDateTime::parse_from_str(text, "%Y:%m:%d %H:%M:%S")`, read
/// as UTC (`.and_utc().timestamp()`). The result is named, not stated: it
/// depends on the text alone, and chrono's parsing rules for the format are
/// not restated here.
#[verifier::external_body]
fn parse_exif_datetime(text: &str) -> (res: Option<i64>)
    ensures
        res == exif_datetime_seconds(text@),
{
    match chrono::NaiveDateTime::parse_from_str(text, "%Y:%m:%d %H:%M:%S") {
        Ok(dt) => Some(dt.and_utc().timestamp()),
        Err(_) => None,
    }
}

/// An EXIF `DateTimeOriginal` text as pseudo-UTC epoch seconds (the absolute
/// time zone is irrelevant: only ordering and bucketing matter).
pub fn exif_capture_time(raw: &str) -> (res: Option<i64>)
    ensures
        res == exif_datetime_seconds(trimmed(raw@)),
{
    let t = trim(raw);
    parse_exif_datetime(t.as_str())
}

/// The capture time: the EXIF time when there is one, else the file's
/// modification time, else 0.
pub fn capture_time(exif: Option<i64>, mtime: Option<i64>) -> (t: i64)
    ensures
        t == match exif {
            Some(x) => x,
            None => match mtime {
                Some(m) => m,
                None => 0,
            },
        },
{
    match exif {
        Some(x) => x,
        None => match mtime {
            Some(m) => m,
            None => 0,
        },
    }
}

/// Where a capture time came from.
#[derive(PartialEq, Eq, Structural, Clone, Copy, Debug)]
pub enum CaptureSource {
    /// EXIF `DateTimeOriginal`.
    Exif,
    /// The file's modification time (or 0 without one).
    Mtime,
}

/// The capture time with its source: EXIF when it parsed, else the
/// modification time (0 without one).
pub fn capture_time_with_source(exif: Option<i64>, mtime: Option<i64>) -> (res: (i64, CaptureSource))
    ensures
        res == match exif {
            Some(x) => (x, CaptureSource::Exif),
            None => (
                match mtime {
                    Some(m) => m,
                    None => 0,
                },
                CaptureSource::Mtime,
            ),
        },
{
    match exif {
        Some(x) => (x, CaptureSource::Exif),
        None => (capture_time(None, mtime), CaptureSource::Mtime),
    }
}

/// What the scan reads from a file's EXIF block: the first
/// `DateTimeOriginal` value as text, the first `Orientation` value, the EXIF
/// (TIFF) buffer, and the embedded thumbnail's offset and length in it.
pub struct ParsedExif {
    pub datetime_original: Option<String>,
    pub orientation: Option<u32>,
    pub buf: Vec<u8>,
    pub thumb_offset: Option<u32>,
    pub thumb_len: Option<u32>,
}

impl View for ParsedExif {
    type V = (Option<Seq<char>>, Option<u32>, Seq<u8>, Option<u32>, Option<u32>);

    open spec fn view(&self) -> Self::V {
        (opt_view(self.datetime_original), self.orientation, self.buf@, self.thumb_offset, self.thumb_len)
    }
}

/// A parse result as values.
pub open spec fn parsed_view(r: Option<ParsedExif>) -> Option<
    (Option<Seq<char>>, Option<u32>, Seq<u8>, Option<u32>, Option<u32>),
> {
    match r {
        Some(p) => Some(p@),
        None => None,
    }
}

/// What kamadak-exif's `Reader::read_from_container` finds in a file's
/// bytes: `None` when it finds no EXIF block it can parse, else the fields
/// of `ParsedExif`.
pub uninterp spec fn exif_of(bytes: Seq<u8>) -> Option<
    (Option<Seq<char>>, Option<u32>, Seq<u8>, Option<u32>, Option<u32>),
>;

/// `exif::Reader::read_from_container` on the bytes of a file, then the
/// fields the scan uses: the first `DateTimeOriginal` ASCII value (as lossy
/// UTF-8), `Orientation`, the EXIF buffer, and the thumbnail's
/// `JPEGInterchangeFormat` and `JPEGInterchangeFormatLength`, each read with
/// `get_uint(0)`. The result is named, not stated: it depends on the bytes
/// alone, and the container and TIFF parsing rules are not restated here.
#[verifier::external_body]
fn read_exif(bytes: &[u8]) -> (res: Option<ParsedExif>)
    ensures
        parsed_view(res) == exif_of(bytes@),
{
    let e = exif::Reader::new().read_from_container(&mut std::io::Cursor::new(bytes)).ok()?;
    let uint = |t: Tag, i: In| e.get_field(t, i).and_then(|f| f.value.get_uint(0));
    let text = match e.get_field(Tag::DateTimeOriginal, In::PRIMARY).map(|f| &f.value) {
        Some(exif::Value::Ascii(v)) => v.first().map(|b| String::from_utf8_lossy(b).into_owned()),
        _ => None,
    };
    Some(ParsedExif {
        datetime_original: text,
        orientation: uint(Tag::Orientation, In::PRIMARY),
        buf: e.buf().to_vec(),
        thumb_offset: uint(Tag::JPEGInterchangeFormat, In::THUMBNAIL),
        thumb_len: uint(Tag::JPEGInterchangeFormatLength, In::THUMBNAIL),
    })
}

/// Do the bytes hold an EXIF block that parses?
pub fn has_exif(bytes: &[u8]) -> (res: bool)
    ensures
        res == exif_of(bytes@) is Some,
{
    read_exif(bytes).is_some()
}

/// The modification time, or 0 without one.
pub open spec fn mtime_or_zero(mtime: Option<i64>) -> i64 {
    match mtime {
        Some(m) => m,
        None => 0,
    }
}

/// Capture time and orientation from a parsed EXIF block: the capture time
/// of `DateTimeOriginal` when it parses, else the modification time (or 0);
/// the orientation tag truncated to `u16`, else 1. Without an EXIF block:
/// the modification time (or 0) and orientation 1.
pub open spec fn meta_of(
    e: Option<(Option<Seq<char>>, Option<u32>, Seq<u8>, Option<u32>, Option<u32>)>,
    mtime: Option<i64>,
) -> (i64, u16) {
    match e {
        Some(x) => (
            match x.0 {
                Some(raw) => match exif_datetime_seconds(trimmed(raw)) {
                    Some(t) => t,
                    None => mtime_or_zero(mtime),
                },
                None => mtime_or_zero(mtime),
            },
            match x.1 {
                Some(v) => (v % 0x10000) as u16,
                None => 1u16,
            },
        ),
        None => (mtime_or_zero(mtime), 1u16),
    }
}

/// The embedded thumbnail of a parsed EXIF block: `len` bytes at `offset` in
/// its buffer, when both are known and the range lies inside the buffer.
pub open spec fn thumb_of(
    e: Option<(Option<Seq<char>>, Option<u32>, Seq<u8>, Option<u32>, Option<u32>)>,
) -> Option<Seq<u8>> {
    match e {
        Some(x) => match (x.3, x.4) {
            (Some(o), Some(l)) => if o + l <= x.2.len() && o + l <= usize::MAX {
                Some(x.2.subrange(o as int, o + l))
            } else {
                None
            },
            _ => None,
        },
        None => None,
    }
}

/// The orientation tag's value, truncated to `u16`; 1 (normal) when absent.
pub fn orientation_from_tag(tag: Option<u32>) -> (o: u16)
    ensures
        o == match tag {
            Some(v) => (v % 0x10000) as u16,
            None => 1u16,
        },
{
    match tag {
        Some(v) => (v % 0x10000) as u16,
        None => 1,
    }
}

/// Capture time and orientation of a file from its parsed EXIF block, if it
/// has one, and its modification time.
pub fn capture_meta(exif: Option<&ParsedExif>, mtime: Option<i64>) -> (res: (i64, u16))
    ensures
        res == meta_of(
            match exif {
                Some(p) => Some(p@),
                None => None,
            },
            mtime,
        ),
{
    match exif {
        Some(f) => {
            let time = match &f.datetime_original {
                Some(raw) => exif_capture_time(raw.as_str()),
                None => None,
            };
            (capture_time(time, mtime), orientation_from_tag(f.orientation))
        },
        None => (capture_time(None, mtime), 1),
    }
}

/// The embedded thumbnail: `len` bytes at `offset` in the EXIF buffer, when
/// both are known and the range lies inside the buffer.
pub fn thumbnail_bytes(buf: &[u8], offset: Option<u32>, len: Option<u32>) -> (res: Option<Vec<u8>>)
    ensures
        res matches Some(v) ==> (offset matches Some(o) && len matches Some(l) && o + l <= buf@.len()
            && o + l <= usize::MAX && v@ == buf@.subrange(o as int, o + l)),
        res is None ==> !(offset matches Some(o) && len matches Some(l) && o + l <= buf@.len()
            && o + l <= usize::MAX),
{
    let o = match offset {
        Some(o) => o as usize,
        None => return None,
    };
    let l = match len {
        Some(l) => l as usize,
        None => return None,
    };
    let end = match o.checked_add(l) {
        Some(e) => e,
        None => return None,
    };
    if end > buf.len() {
        return None;
    }
    let mut out: Vec<u8> = Vec::new();
    let mut i: usize = o;
    while i < end
        invariant
            o <= i <= end <= buf@.len(),
            out@ == buf@.subrange(o as int, i as int),
        decreases end - i,
    {
        out.push(buf[i]);
        i += 1;
        assert(out@ =~= buf@.subrange(o as int, i as int));
    }
    Some(out)
}

/// Capture time and orientation of a file from its bytes (only the EXIF
/// block is read, no image decode) and its modification time.
pub fn exif_meta(bytes: &[u8], mtime: Option<i64>) -> (res: (i64, u16))
    ensures
        res == meta_of(exif_of(bytes@), mtime),
{
    let parsed = read_exif(bytes);
    capture_meta(parsed.as_ref(), mtime)
}

/// The embedded EXIF thumbnail (JPEG bytes) of a file, from its bytes and
/// without a full decode.
pub fn embedded_thumbnail(bytes: &[u8]) -> (res: Option<Vec<u8>>)
    ensures
        match res {
            Some(v) => thumb_of(exif_of(bytes@)) == Some(v@),
            None => thumb_of(exif_of(bytes@)) is None,
        },
{
    match read_exif(bytes) {
        Some(p) => thumbnail_bytes(p.buf.as_slice(), p.thumb_offset, p.thumb_len),
        None => None,
    }
}

} // verus!
