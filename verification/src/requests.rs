//! Which images have a decode in flight, so that each missing thumbnail or
//! frame is asked for once until its decode comes back.

use vstd::prelude::*;

verus! {

/// Decodes in flight, by image index.
pub struct Requests {
    pending: Vec<bool>,
}

impl View for Requests {
    type V = Seq<bool>;

    closed spec fn view(&self) -> Seq<bool> {
        self.pending@
    }
}

impl Requests {
    /// Nothing in flight, for a folder of `n` images.
    pub fn new(n: usize) -> (r: Requests)
        ensures
            r@ == Seq::new(n as nat, |i: int| false),
    {
        let mut pending: Vec<bool> = Vec::new();
        let mut i: usize = 0;
        while i < n
            invariant
                0 <= i <= n,
                pending@ == Seq::new(i as nat, |j: int| false),
            decreases n - i,
        {
            pending.push(false);
            i += 1;
            assert(pending@ =~= Seq::new(i as nat, |j: int| false));
        }
        Requests { pending }
    }

    /// Is any decode in flight?
    pub fn any(&self) -> (res: bool)
        ensures
            res == exists|i: int| 0 <= i < self@.len() && #[trigger] self@[i],
    {
        let n = self.pending.len();
        let mut i: usize = 0;
        while i < n
            invariant
                n == self@.len(),
                0 <= i <= n,
                forall|j: int| 0 <= j < i ==> !#[trigger] self@[j],
            decreases n - i,
        {
            if self.pending[i] {
                assert(self@[i as int]);
                return true;
            }
            i += 1;
        }
        false
    }

    /// Ask for image `idx` unless it is already resident or in flight: says
    /// whether a decode is to be requested now, and marks it in flight.
    pub fn claim(&mut self, idx: usize, resident: bool) -> (res: bool)
        ensures
            res == (idx < old(self)@.len() && !resident && !old(self)@[idx as int]),
            final(self)@ == if res {
                old(self)@.update(idx as int, true)
            } else {
                old(self)@
            },
    {
        if idx < self.pending.len() && !resident && !self.pending[idx] {
            self.pending.set(idx, true);
            true
        } else {
            false
        }
    }

    /// The decode of image `idx` came back.
    pub fn finish(&mut self, idx: usize)
        ensures
            final(self)@ == if idx < old(self)@.len() {
                old(self)@.update(idx as int, false)
            } else {
                old(self)@
            },
    {
        if idx < self.pending.len() {
            self.pending.set(idx, false);
        }
    }

    /// Forget the requests outside `lo..=hi`.
    pub fn keep_only(&mut self, lo: usize, hi: usize)
        ensures
            final(self)@.len() == old(self)@.len(),
            forall|i: int|
                0 <= i < old(self)@.len() ==> #[trigger] final(self)@[i] == (old(self)@[i] && lo <= i
                    <= hi),
    {
        let n = self.pending.len();
        let ghost before = self@;
        let mut i: usize = 0;
        while i < n
            invariant
                n == before.len(),
                self@.len() == n,
                0 <= i <= n,
                forall|j: int| 0 <= j < i ==> #[trigger] self@[j] == (before[j] && lo <= j <= hi),
                forall|j: int| i <= j < n ==> #[trigger] self@[j] == before[j],
            decreases n - i,
        {
            if i < lo || i > hi {
                self.pending.set(i, false);
            }
            i += 1;
        }
    }
}

} // verus!
