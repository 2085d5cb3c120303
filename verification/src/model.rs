//! Core data model: ratings, view mode, and the filter predicate.

use vstd::prelude::*;

verus! {

/// Persisted per image: a star count (0 = unrated) and a reject flag.
#[derive(Clone, Copy, PartialEq, Eq, Structural, Debug)]
pub struct Rating {
    pub stars: u8,
    pub reject: bool,
}

impl Rating {
    /// The unrated, not rejected value.
    pub open spec fn blank() -> Rating {
        Rating { stars: 0, reject: false }
    }

    /// Reviewed = rated or rejected.
    pub open spec fn is_handled(self) -> bool {
        self.stars > 0 || self.reject
    }

    /// Reviewed = rated or rejected (drives the timeline ready strip and the
    /// review counts).
    pub fn handled(&self) -> (res: bool)
        ensures
            res == self.is_handled(),
    {
        self.stars > 0 || self.reject
    }
}

impl Default for Rating {
    fn default() -> (r: Rating)
        ensures
            r == Rating::blank(),
    {
        Rating { stars: 0, reject: false }
    }
}

/// Which surface the main area shows.
#[derive(PartialEq, Eq, Structural, Clone, Copy, Debug)]
pub enum View {
    Grid,
    Loupe,
}

/// How the star filter compares the rating against the threshold.
#[derive(PartialEq, Eq, Structural, Clone, Copy, Debug)]
pub enum StarFilterMode {
    /// at least
    Gte,
    /// exactly
    Eq,
    /// less than
    Lt,
}

/// Which images the reject flag lets through.
#[derive(PartialEq, Eq, Structural, Clone, Copy, Debug)]
pub enum RejectFilter {
    All,
    Hide,
    Only,
}

/// The rating an image stands at: a missing rating counts as 0 stars, not rejected.
pub open spec fn rating_or_blank(rating: Option<Rating>) -> Rating {
    match rating {
        Some(r) => r,
        None => Rating::blank(),
    }
}

/// Does the star count pass the comparison against `min_stars`?
pub open spec fn stars_pass(stars: u8, min_stars: u8, mode: StarFilterMode) -> bool {
    match mode {
        StarFilterMode::Eq => stars == min_stars,
        StarFilterMode::Lt => stars < min_stars,
        StarFilterMode::Gte => stars >= min_stars,
    }
}

/// Does the reject flag pass the reject filter?
pub open spec fn reject_passes(reject: bool, reject_filter: RejectFilter) -> bool {
    match reject_filter {
        RejectFilter::All => true,
        RejectFilter::Hide => !reject,
        RejectFilter::Only => reject,
    }
}

/// The filter predicate: the star comparison, then the reject filter.
pub open spec fn passes_spec(
    rating: Option<Rating>,
    min_stars: u8,
    mode: StarFilterMode,
    reject_filter: RejectFilter,
) -> bool {
    let r = rating_or_blank(rating);
    stars_pass(r.stars, min_stars, mode) && reject_passes(r.reject, reject_filter)
}

/// Does this rating pass the active filter? `None` is treated as 0 stars /
/// not rejected.
pub fn passes(
    rating: Option<&Rating>,
    min_stars: u8,
    mode: StarFilterMode,
    reject_filter: RejectFilter,
) -> (res: bool)
    ensures
        res == passes_spec(
            match rating {
                Some(r) => Some(*r),
                None => None,
            },
            min_stars,
            mode,
            reject_filter,
        ),
{
    let (stars, reject) = match rating {
        Some(r) => (r.stars, r.reject),
        None => (0u8, false),
    };
    let star_fail = match mode {
        StarFilterMode::Eq => stars != min_stars,
        StarFilterMode::Lt => stars >= min_stars,
        StarFilterMode::Gte => stars < min_stars,
    };
    if star_fail {
        return false;
    }
    match reject_filter {
        RejectFilter::Hide => !reject,
        RejectFilter::Only => reject,
        RejectFilter::All => true,
    }
}

} // verus!
