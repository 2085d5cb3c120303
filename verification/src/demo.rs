//! The evaluation build's in-memory ratings, kept by image index: the
//! deterministic demo seeding and the plain wrap-around navigation.

use vstd::prelude::*;
use crate::model::Rating;

verus! {

/// The demo rating of image `i`: a deterministic pseudo-random spread (about
/// 30% unrated, some rejects, a spread of stars).
pub open spec fn demo_rating(i: usize) -> Option<Rating> {
    let h = vstd::wrapping::usize_specs::wrapping_mul(i, 2_654_435_761) ^ (i >> 3usize);
    let m = h % 10;
    if m <= 2 {
        None
    } else if m == 3 {
        Some(Rating { stars: 0, reject: true })
    } else if m <= 5 {
        Some(Rating { stars: 2, reject: false })
    } else if m <= 7 {
        Some(Rating { stars: 3, reject: false })
    } else if m == 8 {
        Some(Rating { stars: 4, reject: false })
    } else {
        Some(Rating { stars: 5, reject: false })
    }
}

/// Seed demo ratings for `n` images, so the timeline is populated at once.
pub fn seed_demo(n: usize) -> (ratings: Vec<Option<Rating>>)
    ensures
        ratings@.len() == n,
        forall|i: int| 0 <= i < n ==> #[trigger] ratings@[i] == demo_rating(i as usize),
{
    let mut ratings: Vec<Option<Rating>> = Vec::new();
    let mut i: usize = 0;
    while i < n
        invariant
            0 <= i <= n,
            ratings@.len() == i,
            forall|j: int| 0 <= j < i ==> #[trigger] ratings@[j] == demo_rating(j as usize),
        decreases n - i,
    {
        let h = i.wrapping_mul(2_654_435_761) ^ (i >> 3);
        let r = match h % 10 {
            0 | 1 | 2 => None,
            3 => Some(Rating { stars: 0, reject: true }),
            4 | 5 => Some(Rating { stars: 2, reject: false }),
            6 | 7 => Some(Rating { stars: 3, reject: false }),
            8 => Some(Rating { stars: 4, reject: false }),
            _ => Some(Rating { stars: 5, reject: false }),
        };
        ratings.push(r);
        i += 1;
    }
    ratings
}

/// The neighbouring image in a list of `n`, wrapping at both ends.
pub fn step_wrapping(current: usize, n: usize, forward: bool) -> (next: usize)
    requires
        current < n,
    ensures
        next < n,
        forward ==> next == (current + 1) % (n as int),
        !forward ==> next == if current == 0 { n - 1 } else { current - 1 },
{
    if forward {
        (current + 1) % n
    } else if current == 0 {
        n - 1
    } else {
        current - 1
    }
}

/// Set image `i`'s stars, keeping its reject flag (unrated counts as blank).
pub fn demo_set_stars(ratings: &mut Vec<Option<Rating>>, i: usize, stars: u8)
    requires
        i < old(ratings)@.len(),
    ensures
        final(ratings)@ == old(ratings)@.update(
            i as int,
            Some(
                Rating {
                    stars,
                    reject: match old(ratings)@[i as int] {
                        Some(r) => r.reject,
                        None => false,
                    },
                },
            ),
        ),
{
    let reject = match ratings[i] {
        Some(r) => r.reject,
        None => false,
    };
    ratings.set(i, Some(Rating { stars, reject }));
}

/// Flip image `i`'s reject flag, keeping its stars (unrated counts as blank).
pub fn demo_toggle_reject(ratings: &mut Vec<Option<Rating>>, i: usize)
    requires
        i < old(ratings)@.len(),
    ensures
        final(ratings)@ == old(ratings)@.update(
            i as int,
            Some(
                match old(ratings)@[i as int] {
                    Some(r) => Rating { stars: r.stars, reject: !r.reject },
                    None => Rating { stars: 0, reject: true },
                },
            ),
        ),
{
    let r = match ratings[i] {
        Some(r) => Rating { stars: r.stars, reject: !r.reject },
        None => Rating { stars: 0, reject: true },
    };
    ratings.set(i, Some(r));
}

} // verus!
