//! How much is done at a time for those who talk to the shelf.
use vstd::prelude::*;

verus! {

/// How many permits may be out at a time.
pub struct Limit {
    pub active: usize,
    pub maximum: usize,
}

impl Limit {
    /// No more permits are out than may be.
    pub open spec fn well_formed(&self) -> bool {
        self.active <= self.maximum
    }

    /// No permit is out.
    pub fn new(maximum: usize) -> (r: Self)
        ensures
            r.active == 0,
            r.maximum == maximum,
            r.well_formed(),
    {
        Limit { active: 0, maximum }
    }

    /// Gives a permit out where there is one left.
    pub fn acquire(&mut self) -> (r: bool)
        requires
            old(self).well_formed(),
        ensures
            final(self).well_formed(),
            final(self).maximum == old(self).maximum,
            r == (old(self).active < old(self).maximum),
            final(self).active == (if r {
                old(self).active + 1
            } else {
                old(self).active as int
            }),
    {
        if self.active < self.maximum {
            self.active = self.active + 1;
            true
        } else {
            false
        }
    }

    /// Takes a permit back.
    pub fn release(&mut self)
        requires
            old(self).well_formed(),
            old(self).active > 0,
        ensures
            final(self).well_formed(),
            final(self).maximum == old(self).maximum,
            final(self).active == old(self).active - 1,
    {
        self.active = self.active - 1;
    }
}

/// The limits for those who talk to the shelf.
pub struct ClientLimits {
    /// Requests that are being read.
    pub readers: Limit,
    /// Pictures that are being decoded.
    pub images: Limit,
}

impl Default for ClientLimits {
    fn default() -> (r: Self)
        ensures
            r.readers.active == 0,
            r.readers.maximum == 16,
            r.images.active == 0,
            r.images.maximum == 2,
    {
        ClientLimits { readers: Limit::new(16), images: Limit::new(2) }
    }
}

} // verus!
