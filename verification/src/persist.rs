//! The per-folder ratings sidecar and the resume config, as values. Reading
//! and writing them (JSON on disk) is the application's job.

use vstd::prelude::*;
use crate::model::Rating;
use crate::namemap::{NameMap, names_distinct, has_name, map_of_pairs, lemma_map_of_pairs_at, lemma_insert_all_distinct};

verus! {

/// The ratings worth keeping: entries that are rated or rejected.
pub open spec fn pruned(m: Map<Seq<char>, Rating>) -> Map<Seq<char>, Rating> {
    Map::new(|k: Seq<char>| m.contains_key(k) && m[k].is_handled(), |k: Seq<char>| m[k])
}

/// Drop blank entries (no stars, not rejected) so the sidecar stays small.
pub fn prune(ratings: &NameMap<Rating>) -> (res: NameMap<Rating>)
    ensures
        res@ == pruned(ratings@),
{
    let items = ratings.pairs();
    let ghost src = items@;
    let n = items.len();
    let mut kept: Vec<(String, Rating)> = Vec::new();
    let mut i: usize = 0;
    while i < n
        invariant
            n == src.len(),
            items@ == src,
            names_distinct(src),
            0 <= i <= n,
            names_distinct(kept@),
            forall|t: int|
                #![trigger kept@[t]]
                0 <= t < kept@.len() ==> exists|j: int|
                    0 <= j < i && #[trigger] src[j] == kept@[t] && src[j].1.is_handled(),
            forall|j: int|
                0 <= j < i && (#[trigger] src[j]).1.is_handled() ==> has_name(kept@, src[j].0@),
        decreases n - i,
    {
        let r = items[i].1;
        if r.stars > 0 || r.reject {
            let name = items[i].0.clone();
            let ghost before = kept@;
            kept.push((name, r));
            proof {
                assert(kept@[before.len() as int] == src[i as int]);
                assert(names_distinct(kept@)) by {
                    assert forall|a: int, b: int|
                        0 <= a < kept@.len() && 0 <= b < kept@.len() && a != b
                        implies #[trigger] kept@[a].0@ != #[trigger] kept@[b].0@ by {
                        if a < before.len() && b < before.len() {
                            assert(before[a].0@ != before[b].0@);
                        } else if a < before.len() {
                            let j = choose|j: int|
                                0 <= j < i && #[trigger] src[j] == before[a] && src[j].1.is_handled();
                            assert(src[j].0@ != src[i as int].0@);
                        } else {
                            let j = choose|j: int|
                                0 <= j < i && #[trigger] src[j] == before[b] && src[j].1.is_handled();
                            assert(src[j].0@ != src[i as int].0@);
                        }
                    }
                }
                assert forall|t: int| #![trigger kept@[t]] 0 <= t < kept@.len() implies exists|j: int|
                    0 <= j < i + 1 && #[trigger] src[j] == kept@[t] && src[j].1.is_handled() by {
                    if t < before.len() {
                        let j = choose|j: int|
                            0 <= j < i && #[trigger] src[j] == before[t] && src[j].1.is_handled();
                        assert(src[j] == kept@[t]);
                    } else {
                        assert(src[i as int] == kept@[t]);
                    }
                }
                assert forall|j: int|
                    0 <= j < i + 1 && (#[trigger] src[j]).1.is_handled() implies has_name(
                    kept@,
                    src[j].0@,
                ) by {
                    if j < i {
                        let t = choose|t: int| 0 <= t < before.len() && #[trigger] before[t].0@ == src[j].0@;
                        assert(kept@[t].0@ == src[j].0@);
                    } else {
                        assert(kept@[before.len() as int].0@ == src[j].0@);
                    }
                }
            }
        }
        i += 1;
    }
    proof {
        lemma_insert_all_distinct(kept@);
        let m = ratings@;
        let res_map = map_of_pairs(kept@);
        assert forall|k: Seq<char>| #[trigger] res_map.contains_key(k) <==> pruned(m).contains_key(k) by {
            if has_name(kept@, k) {
                let t = choose|t: int| 0 <= t < kept@.len() && #[trigger] kept@[t].0@ == k;
                let j = choose|j: int| 0 <= j < n && #[trigger] src[j] == kept@[t] && src[j].1.is_handled();
                lemma_map_of_pairs_at(src, j);
            }
            if pruned(m).contains_key(k) {
                let j = choose|j: int| 0 <= j < src.len() && #[trigger] src[j].0@ == k;
                lemma_map_of_pairs_at(src, j);
                assert(src[j].1.is_handled());
            }
        }
        assert forall|k: Seq<char>| #[trigger] res_map.contains_key(k) implies res_map[k] == pruned(m)[k] by {
            let t = choose|t: int| 0 <= t < kept@.len() && #[trigger] kept@[t].0@ == k;
            let j = choose|j: int| 0 <= j < n && #[trigger] src[j] == kept@[t] && src[j].1.is_handled();
            lemma_map_of_pairs_at(src, j);
            lemma_map_of_pairs_at(kept@, t);
        }
        assert(res_map =~= pruned(m));
    }
    NameMap::from_pairs(kept)
}

/// The sidecar's contents: a format version and the ratings by file name.
pub struct Sidecar {
    pub version: u32,
    pub files: NameMap<Rating>,
}

impl Sidecar {
    /// The sidecar written for a folder: version 1 and the pruned ratings.
    pub fn for_save(ratings: &NameMap<Rating>) -> (s: Sidecar)
        ensures
            s.version == 1,
            s.files@ == pruned(ratings@),
    {
        Sidecar { version: 1, files: prune(ratings) }
    }
}

/// The ratings a folder opens with: those of its sidecar, or none when the
/// sidecar is missing or could not be read (a bad sidecar never blocks culling).
pub fn ratings_from_sidecar(sidecar: Option<Sidecar>) -> (res: NameMap<Rating>)
    ensures
        res@ == match sidecar {
            Some(s) => s.files@,
            None => Map::empty(),
        },
{
    match sidecar {
        Some(s) => s.files,
        None => NameMap::new(),
    }
}

/// What the resume config holds: the last folder, and per folder the last
/// viewed image.
pub struct ConfigView {
    pub last_folder: Option<Seq<char>>,
    pub last_image: Map<Seq<char>, Seq<char>>,
}

/// Remembers the last folder and the last-viewed image per folder so the app
/// reopens where it left off.
pub struct ResumeConfig {
    pub last_folder: Option<String>,
    /// folder path -> last-viewed image filename.
    pub last_image: NameMap<String>,
}

/// The text of an optional string.
pub open spec fn opt_view(s: Option<String>) -> Option<Seq<char>> {
    match s {
        Some(t) => Some(t@),
        None => None,
    }
}

impl View for ResumeConfig {
    type V = ConfigView;

    open spec fn view(&self) -> ConfigView {
        ConfigView {
            last_folder: opt_view(self.last_folder),
            last_image: self.last_image@.map_values(|s: String| s@),
        }
    }
}

impl ResumeConfig {
    /// A config that remembers nothing.
    pub fn new() -> (c: ResumeConfig)
        ensures
            c@.last_folder == None::<Seq<char>>,
            c@.last_image == Map::<Seq<char>, Seq<char>>::empty(),
    {
        let c = ResumeConfig { last_folder: None, last_image: NameMap::new() };
        assert(c@.last_image =~= Map::<Seq<char>, Seq<char>>::empty());
        c
    }

    /// Remember `image` as the last-viewed image of `folder`, and `folder` as
    /// the last folder.
    pub fn remember(&mut self, folder: &str, image: &str)
        ensures
            final(self)@.last_folder == Some(folder@),
            final(self)@.last_image == old(self)@.last_image.insert(folder@, image@),
    {
        self.last_folder = Some(folder.to_owned());
        let ghost before = self.last_image@;
        self.last_image.insert(folder.to_owned(), image.to_owned());
        assert(self.last_image@.map_values(|s: String| s@) =~= before.map_values(
            |s: String| s@,
        ).insert(folder@, image@));
    }

    /// The image last viewed in `folder`, if one was remembered.
    pub fn last_image_of(&self, folder: &String) -> (res: Option<&String>)
        ensures
            match res {
                Some(s) => self@.last_image.contains_key(folder@) && s@ == self@.last_image[folder@],
                None => !self@.last_image.contains_key(folder@),
            },
    {
        self.last_image.get(folder)
    }
}

} // verus!
