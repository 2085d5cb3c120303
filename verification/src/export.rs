//! Keeper export, as a plan: the keeper list (one stem per line for images at
//! or above the keeper threshold) and one XMP sidecar per keeper carrying its
//! star rating. Writing the files into the destination folder is the
//! application's job.

use vstd::prelude::*;
use crate::model::{Rating, rating_or_blank};
use crate::namemap::NameMap;
use crate::names::{file_stem, file_stem_of, push_char};
use crate::scan::Entry;

verus! {

/// The decimal digits of `n`.
pub open spec fn decimal(n: nat) -> Seq<char>
    decreases n,
{
    if n < 10 {
        seq![(48 + n) as char]
    } else {
        decimal(n / 10).push((48 + n % 10) as char)
    }
}

/// The XMP text before the rating.
pub open spec fn xmp_head() -> Seq<char> {
    "<?xml version=\"1.0\" encoding=\"UTF-8\"?>\n<x:xmpmeta xmlns:x=\"adobe:ns:meta/\" x:xmptk=\"bieglers-photo-filter\">\n <rdf:RDF xmlns:rdf=\"http://www.w3.org/1999/02/22-rdf-syntax-ns#\">\n  <rdf:Description rdf:about=\"\"\n    xmlns:xmp=\"http://ns.adobe.com/xap/1.0/\">\n   <xmp:Rating>"@
}

/// The XMP text after the rating.
pub open spec fn xmp_tail() -> Seq<char> {
    "</xmp:Rating>\n  </rdf:Description>\n </rdf:RDF>\n</x:xmpmeta>\n"@
}

/// A minimal Lightroom/darktable-compatible XMP sidecar carrying a star rating.
pub open spec fn xmp_text(stars: u8) -> Seq<char> {
    xmp_head() + decimal(stars as nat) + xmp_tail()
}

/// The minimal Lightroom/darktable-compatible XMP sidecar for a star rating.
pub fn xmp_for(stars: u8) -> (res: String)
    ensures
        res@ == xmp_text(stars),
{
    let mut s = String::from_str("<?xml version=\"1.0\" encoding=\"UTF-8\"?>\n<x:xmpmeta xmlns:x=\"adobe:ns:meta/\" x:xmptk=\"bieglers-photo-filter\">\n <rdf:RDF xmlns:rdf=\"http://www.w3.org/1999/02/22-rdf-syntax-ns#\">\n  <rdf:Description rdf:about=\"\"\n    xmlns:xmp=\"http://ns.adobe.com/xap/1.0/\">\n   <xmp:Rating>");
    push_decimal(&mut s, stars);
    s.append("</xmp:Rating>\n  </rdf:Description>\n </rdf:RDF>\n</x:xmpmeta>\n");
    s
}

/// Append the decimal digits of `n`.
fn push_decimal(s: &mut String, n: u8)
    ensures
        final(s)@ == old(s)@ + decimal(n as nat),
{
    let h = n / 100;
    let t = (n / 10) % 10;
    let o = n % 10;
    proof {
        reveal_with_fuel(decimal, 3);
    }
    if n >= 100 {
        push_char(s, ((48 + h) as u8) as char);
    }
    if n >= 10 {
        push_char(s, ((48 + t) as u8) as char);
    }
    push_char(s, ((48 + o) as u8) as char);
    proof {
        let nn = n as nat;
        if nn >= 100 {
            assert(decimal(nn) == decimal(nn / 10).push((48 + nn % 10) as char));
            assert(decimal(nn / 10) == decimal(nn / 100).push((48 + (nn / 10) % 10) as char));
            assert(decimal(nn / 100) == seq![(48 + nn / 100) as char]);
        } else if nn >= 10 {
            assert(decimal(nn / 10) == seq![(48 + nn / 10) as char]);
        }
        assert(final(s)@ =~= old(s)@ + decimal(nn));
    }
}

/// One keeper: its stem and its star count.
pub open spec fn keeper_stem(name: Seq<char>) -> Seq<char> {
    match file_stem_of(name) {
        Some(st) => st,
        None => name,
    }
}

/// The keepers among the first `k` images, in list order: stem and stars of
/// each image whose stars reach the threshold.
pub open spec fn keepers(
    entries: Seq<Entry>,
    ratings: Map<Seq<char>, Rating>,
    threshold: u8,
    k: int,
) -> Seq<(Seq<char>, u8)>
    decreases k,
{
    if k <= 0 {
        Seq::empty()
    } else {
        let prev = keepers(entries, ratings, threshold, k - 1);
        let name = entries[k - 1].name@;
        let stars = rating_or_blank(
            if ratings.contains_key(name) { Some(ratings[name]) } else { None },
        ).stars;
        if stars >= threshold {
            prev.push((keeper_stem(name), stars))
        } else {
            prev
        }
    }
}

/// The keeper list: each stem followed by a newline.
pub open spec fn list_text(ks: Seq<(Seq<char>, u8)>) -> Seq<char>
    decreases ks.len(),
{
    if ks.len() == 0 {
        Seq::empty()
    } else {
        list_text(ks.drop_last()) + ks.last().0 + seq!['\n']
    }
}

/// One sidecar to write: its file name and contents.
pub struct SidecarFile {
    pub file_name: String,
    pub contents: String,
}

/// Everything the export writes: `keepers.txt` and one sidecar per keeper.
pub struct KeeperPlan {
    /// Contents of `keepers.txt`.
    pub list: String,
    /// One `<stem>.xmp` per keeper, in list order.
    pub sidecars: Vec<SidecarFile>,
}

/// Plan the keeper export: for every image whose stars reach `threshold`
/// (unrated counts as 0), its stem (file name without extension, or the
/// whole name when it has none) goes into the list and gets a `<stem>.xmp`
/// sidecar carrying its rating. The number of keepers is the number of
/// sidecars.
pub fn keeper_plan(entries: &Vec<Entry>, ratings: &NameMap<Rating>, threshold: u8) -> (plan: KeeperPlan)
    ensures
        plan.list@ == list_text(keepers(entries@, ratings@, threshold, entries@.len() as int)),
        plan.sidecars@.len() == keepers(entries@, ratings@, threshold, entries@.len() as int).len(),
        forall|i: int|
            0 <= i < plan.sidecars@.len() ==> {
                let k = #[trigger] keepers(entries@, ratings@, threshold, entries@.len() as int)[i];
                &&& plan.sidecars@[i].file_name@ == k.0 + ".xmp"@
                &&& plan.sidecars@[i].contents@ == xmp_text(k.1)
            },
{
    let n = entries.len();
    let mut list = String::new();
    let mut sidecars: Vec<SidecarFile> = Vec::new();
    let mut i: usize = 0;
    while i < n
        invariant
            n == entries@.len(),
            0 <= i <= n,
            list@ == list_text(keepers(entries@, ratings@, threshold, i as int)),
            sidecars@.len() == keepers(entries@, ratings@, threshold, i as int).len(),
            forall|t: int|
                0 <= t < sidecars@.len() ==> {
                    let k = #[trigger] keepers(entries@, ratings@, threshold, i as int)[t];
                    &&& sidecars@[t].file_name@ == k.0 + ".xmp"@
                    &&& sidecars@[t].contents@ == xmp_text(k.1)
                },
        decreases n - i,
    {
        let e = &entries[i];
        let stars = match ratings.get(&e.name) {
            Some(r) => r.stars,
            None => 0,
        };
        let ghost prev = keepers(entries@, ratings@, threshold, i as int);
        if stars >= threshold {
            let stem = match file_stem(e.name.as_str()) {
                Some(st) => st,
                None => e.name.clone(),
            };
            let ghost stem_v = stem@;
            assert(stem_v == keeper_stem(e.name@));
            list.append(stem.as_str());
            push_char(&mut list, '\n');
            let mut file_name = stem;
            file_name.append(".xmp");
            sidecars.push(SidecarFile { file_name, contents: xmp_for(stars) });
            proof {
                let next = keepers(entries@, ratings@, threshold, i + 1);
                assert(next == prev.push((stem_v, stars)));
                assert(next.drop_last() == prev);
                assert(list@ =~= list_text(next));
                assert forall|t: int| 0 <= t < sidecars@.len() implies {
                    let k = #[trigger] next[t];
                    &&& sidecars@[t].file_name@ == k.0 + ".xmp"@
                    &&& sidecars@[t].contents@ == xmp_text(k.1)
                } by {
                    if t < prev.len() {
                        assert(next[t] == prev[t]);
                    }
                }
            }
        } else {
            assert(keepers(entries@, ratings@, threshold, i + 1) == prev);
        }
        i += 1;
    }
    KeeperPlan { list, sidecars }
}

} // verus!
