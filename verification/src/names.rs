//! File-name parts as `std::path::Path` takes them apart on Unix: the final
//! file name of a path, its stem and its extension, and the JPEG test.

use vstd::prelude::*;
use vstd::std_specs::iter::IteratorSpec;

verus! {

/// Index just past the last `/` in `p` (0 when there is none).
pub open spec fn after_last_slash(p: Seq<char>) -> int
    decreases p.len(),
{
    if p.len() == 0 {
        0
    } else if p.last() == '/' {
        p.len() as int
    } else {
        after_last_slash(p.drop_last())
    }
}

/// The index past the last `/` lies within the text, before its end when the
/// text does not end in `/`.
pub proof fn lemma_after_last_slash_range(p: Seq<char>)
    ensures
        0 <= after_last_slash(p) <= p.len(),
        p.len() > 0 && p.last() != '/' ==> after_last_slash(p) < p.len(),
    decreases p.len(),
{
    if p.len() > 0 && p.last() != '/' {
        lemma_after_last_slash_range(p.drop_last());
    }
}

/// The final component of `p` when it is a normal file name: trailing `/`
/// and `.` components are skipped; none when the path ends in `..`, is a
/// root, `.` or empty.
pub open spec fn file_name_of(p: Seq<char>) -> Option<Seq<char>>
    decreases p.len(),
{
    if p.len() == 0 {
        None
    } else if p.last() == '/' {
        file_name_of(p.drop_last())
    } else {
        let k = after_last_slash(p);
        let piece = p.subrange(k, p.len() as int);
        if piece == seq!['.'] {
            if k <= 0 {
                None
            } else {
                proof {
                    lemma_after_last_slash_range(p);
                }
                file_name_of(p.subrange(0, k))
            }
        } else if piece == seq!['.', '.'] {
            None
        } else {
            Some(piece)
        }
    }
}

/// Index of the last `.` in `name` (-1 when there is none).
pub open spec fn last_dot(name: Seq<char>) -> int
    decreases name.len(),
{
    if name.len() == 0 {
        -1
    } else if name.last() == '.' {
        name.len() - 1
    } else {
        last_dot(name.drop_last())
    }
}

/// The stem of a file name: the part before the last `.`, or the whole
/// name when it has no `.` other than a leading one (or is `..`).
pub open spec fn stem_of(name: Seq<char>) -> Seq<char> {
    let d = last_dot(name);
    if name == seq!['.', '.'] || d <= 0 {
        name
    } else {
        name.subrange(0, d)
    }
}

/// The extension of a file name: the part after the last `.`, unless that
/// `.` is the first character (or the name is `..`).
pub open spec fn extension_of(name: Seq<char>) -> Option<Seq<char>> {
    let d = last_dot(name);
    if name == seq!['.', '.'] || d <= 0 {
        None
    } else {
        Some(name.subrange(d + 1, name.len() as int))
    }
}

/// `Path::file_stem`: the stem of the final file name.
pub open spec fn file_stem_of(p: Seq<char>) -> Option<Seq<char>> {
    match file_name_of(p) {
        Some(n) => Some(stem_of(n)),
        None => None,
    }
}

/// `Path::extension`: the extension of the final file name.
pub open spec fn extension_of_path(p: Seq<char>) -> Option<Seq<char>> {
    match file_name_of(p) {
        Some(n) => extension_of(n),
        None => None,
    }
}

/// ASCII lower case of a character (others unchanged).
pub open spec fn ascii_lower(c: char) -> char {
    if 'A' <= c <= 'Z' {
        ((c as int) + 32) as char
    } else {
        c
    }
}

/// ASCII lower case of a text.
pub open spec fn ascii_lower_seq(s: Seq<char>) -> Seq<char> {
    s.map_values(|c: char| ascii_lower(c))
}

/// A JPEG by name: the extension is `jpg` or `jpeg`, in any ASCII case.
pub open spec fn is_jpeg_name(p: Seq<char>) -> bool {
    match extension_of_path(p) {
        Some(e) => ascii_lower_seq(e) == seq!['j', 'p', 'g'] || ascii_lower_seq(e) == seq![
            'j',
            'p',
            'e',
            'g',
        ],
        None => false,
    }
}

/// `String::push`: appends one character.
#[verifier::external_body]
pub(crate) fn push_char(s: &mut String, c: char)
    ensures
        final(s)@ == old(s)@.push(c),
{
    s.push(c);
}

/// The characters of a text.
pub fn chars_of(s: &str) -> (cs: Vec<char>)
    ensures
        cs@ == s@,
{
    broadcast use vstd::string::axiom_spec_iter, vstd::string::next_postcondition;

    let mut it = s.chars();
    let mut cs: Vec<char> = Vec::new();
    loop
        invariant
            cs@ + it.remaining() == s@,
            it.decrease() is Some,
        ensures
            cs@ == s@,
        decreases it.decrease()->0,
    {
        let ghost before = it.remaining();
        match it.next() {
            Some(c) => {
                cs.push(c);
                assert(cs@ + it.remaining() =~= s@) by {
                    assert(before =~= seq![c] + before.drop_first());
                }
            },
            None => {
                assert(cs@ =~= s@);
                break;
            },
        }
    }
    cs
}

/// The text made of `cs[from..to]`.
pub fn text_of(cs: &Vec<char>, from: usize, to: usize) -> (s: String)
    requires
        from <= to <= cs@.len(),
    ensures
        s@ == cs@.subrange(from as int, to as int),
{
    let mut s = String::new();
    let mut i: usize = from;
    while i < to
        invariant
            from <= i <= to <= cs@.len(),
            s@ == cs@.subrange(from as int, i as int),
        decreases to - i,
    {
        push_char(&mut s, cs[i]);
        i += 1;
        assert(s@ =~= cs@.subrange(from as int, i as int));
    }
    s
}

/// `after_last_slash` of `cs[0..end]`.
fn after_last_slash_exec(cs: &Vec<char>, end: usize) -> (k: usize)
    requires
        end <= cs@.len(),
    ensures
        k as int == after_last_slash(cs@.subrange(0, end as int)),
        k <= end,
{
    let mut j: usize = end;
    while j > 0 && cs[j - 1] != '/'
        invariant
            j <= end <= cs@.len(),
            after_last_slash(cs@.subrange(0, end as int)) == after_last_slash(
                cs@.subrange(0, j as int),
            ),
        decreases j,
    {
        assert(cs@.subrange(0, j as int).drop_last() =~= cs@.subrange(0, j - 1));
        j -= 1;
    }
    j
}

/// Where the final file name of `cs` lies: `cs[k..end]`.
fn file_name_range(cs: &Vec<char>) -> (res: Option<(usize, usize)>)
    ensures
        match res {
            Some((k, end)) => k <= end <= cs@.len() && file_name_of(cs@) == Some(
                cs@.subrange(k as int, end as int),
            ),
            None => file_name_of(cs@) == None::<Seq<char>>,
        },
{
    let mut end: usize = cs.len();
    assert(cs@.subrange(0, end as int) =~= cs@);
    loop
        invariant
            end <= cs@.len(),
            file_name_of(cs@) == file_name_of(cs@.subrange(0, end as int)),
        decreases end,
    {
        let ghost p = cs@.subrange(0, end as int);
        if end == 0 {
            return None;
        }
        if cs[end - 1] == '/' {
            assert(p.drop_last() =~= cs@.subrange(0, end - 1));
            end -= 1;
        } else {
            let k = after_last_slash_exec(cs, end);
            let ghost piece = p.subrange(k as int, end as int);
            assert(piece =~= cs@.subrange(k as int, end as int));
            if end - k == 1 && cs[k] == '.' {
                assert(piece =~= seq!['.']);
                if k == 0 {
                    return None;
                }
                assert(p.subrange(0, k as int) =~= cs@.subrange(0, k as int));
                end = k;
            } else if end - k == 2 && cs[k] == '.' && cs[k + 1] == '.' {
                assert(piece =~= seq!['.', '.']);
                return None;
            } else {
                assert(piece.len() == end - k);
                assert(piece != seq!['.']) by {
                    if piece == seq!['.'] {
                        assert(piece[0] == cs@[k as int]);
                    }
                }
                assert(piece != seq!['.', '.']) by {
                    if piece == seq!['.', '.'] {
                        assert(piece[0] == cs@[k as int]);
                        assert(piece[1] == cs@[k + 1]);
                    }
                }
                return Some((k, end));
            }
        }
    }
}

/// `last_dot` of `cs[from..to]`, as an index into `cs`.
fn last_dot_exec(cs: &Vec<char>, from: usize, to: usize) -> (d: Option<usize>)
    requires
        from <= to <= cs@.len(),
    ensures
        match d {
            Some(i) => from <= i < to && last_dot(cs@.subrange(from as int, to as int)) == i - from,
            None => last_dot(cs@.subrange(from as int, to as int)) == -1,
        },
{
    let mut j: usize = to;
    while j > from && cs[j - 1] != '.'
        invariant
            from <= j <= to <= cs@.len(),
            last_dot(cs@.subrange(from as int, to as int)) == last_dot(
                cs@.subrange(from as int, j as int),
            ),
        decreases j,
    {
        assert(cs@.subrange(from as int, j as int).drop_last() =~= cs@.subrange(
            from as int,
            j - 1,
        ));
        j -= 1;
    }
    if j == from {
        None
    } else {
        Some(j - 1)
    }
}

/// `Path::new(path).file_stem()`: the stem of the final file name.
pub fn file_stem(path: &str) -> (res: Option<String>)
    ensures
        match res {
            Some(s) => file_stem_of(path@) == Some(s@),
            None => file_stem_of(path@) == None::<Seq<char>>,
        },
{
    let cs = chars_of(path);
    match file_name_range(&cs) {
        None => None,
        Some((k, end)) => {
            let ghost name = cs@.subrange(k as int, end as int);
            let is_dotdot = end - k == 2 && cs[k] == '.' && cs[k + 1] == '.';
            assert(name.len() == end - k);
            assert(is_dotdot == (name == seq!['.', '.'])) by {
                if is_dotdot {
                    assert(name =~= seq!['.', '.']);
                }
                if name == seq!['.', '.'] {
                    assert(name[0] == cs@[k as int]);
                    assert(name[1] == cs@[k + 1]);
                }
            }
            match last_dot_exec(&cs, k, end) {
                Some(d) if d > k && !is_dotdot => {
                    let s = text_of(&cs, k, d);
                    assert(s@ =~= name.subrange(0, d - k));
                    Some(s)
                },
                _ => Some(text_of(&cs, k, end)),
            }
        },
    }
}

/// `Path::new(path).extension()`: the extension of the final file name.
pub fn extension(path: &str) -> (res: Option<String>)
    ensures
        match res {
            Some(s) => extension_of_path(path@) == Some(s@),
            None => extension_of_path(path@) == None::<Seq<char>>,
        },
{
    let cs = chars_of(path);
    match file_name_range(&cs) {
        None => None,
        Some((k, end)) => {
            let ghost name = cs@.subrange(k as int, end as int);
            let is_dotdot = end - k == 2 && cs[k] == '.' && cs[k + 1] == '.';
            assert(name.len() == end - k);
            assert(is_dotdot == (name == seq!['.', '.'])) by {
                if is_dotdot {
                    assert(name =~= seq!['.', '.']);
                }
                if name == seq!['.', '.'] {
                    assert(name[0] == cs@[k as int]);
                    assert(name[1] == cs@[k + 1]);
                }
            }
            match last_dot_exec(&cs, k, end) {
                Some(d) if d > k && !is_dotdot => {
                    let s = text_of(&cs, d + 1, end);
                    assert(s@ =~= name.subrange(d - k + 1, name.len() as int));
                    Some(s)
                },
                _ => None,
            }
        },
    }
}

/// ASCII lower case of one character.
fn lower(c: char) -> (r: char)
    ensures
        r == ascii_lower(c),
{
    if 'A' <= c && c <= 'Z' {
        let b = (c as u32) as u8;
        ((b + 32) as char)
    } else {
        c
    }
}

/// Is this a JPEG by name? (extension `jpg` or `jpeg`, any ASCII case)
pub fn is_jpeg(path: &str) -> (res: bool)
    ensures
        res == is_jpeg_name(path@),
{
    match extension(path) {
        None => false,
        Some(e) => {
            let cs = chars_of(e.as_str());
            let n = cs.len();
            let mut lc: Vec<char> = Vec::new();
            let mut i: usize = 0;
            while i < n
                invariant
                    n == cs@.len(),
                    0 <= i <= n,
                    lc@ == ascii_lower_seq(cs@).take(i as int),
                decreases n - i,
            {
                lc.push(lower(cs[i]));
                i += 1;
                assert(lc@ =~= ascii_lower_seq(cs@).take(i as int));
            }
            assert(lc@ =~= ascii_lower_seq(e@));
            let jpg = n == 3 && lc[0] == 'j' && lc[1] == 'p' && lc[2] == 'g';
            let jpeg = n == 4 && lc[0] == 'j' && lc[1] == 'p' && lc[2] == 'e' && lc[3] == 'g';
            assert(jpg == (lc@ == seq!['j', 'p', 'g'])) by {
                if lc@ == seq!['j', 'p', 'g'] {
                    assert(lc@[0] == 'j' && lc@[1] == 'p' && lc@[2] == 'g');
                }
                if jpg {
                    assert(lc@ =~= seq!['j', 'p', 'g']);
                }
            }
            assert(jpeg == (lc@ == seq!['j', 'p', 'e', 'g'])) by {
                if lc@ == seq!['j', 'p', 'e', 'g'] {
                    assert(lc@[0] == 'j' && lc@[1] == 'p' && lc@[2] == 'e' && lc@[3] == 'g');
                }
                if jpeg {
                    assert(lc@ =~= seq!['j', 'p', 'e', 'g']);
                }
            }
            jpg || jpeg
        },
    }
}

} // verus!
