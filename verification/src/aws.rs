//! Following Cognito's paged listings to the end. A list left half-read is a
//! row no screen can act on, so every page is taken until the service stops
//! handing out a next-page token.

use vstd::prelude::*;

verus! {

/// The rows of a paged listing read so far.
pub struct Paging<T> {
    pub rows: Vec<T>,
}

impl<T> Paging<T> {
    pub fn new() -> (r: Paging<T>)
        ensures
            r.rows@.len() == 0,
    {
        Paging { rows: Vec::new() }
    }

    /// Takes in one page and the token the service handed out with it, and
    /// says which page to read next: the one that token names, or none when
    /// the listing is complete.
    pub fn absorb(&mut self, page: Vec<T>, token: Option<String>) -> (next: Option<String>)
        ensures
            final(self).rows@ == old(self).rows@ + page@,
            next == token,
    {
        let mut page = page;
        self.rows.append(&mut page);
        token
    }

    /// Every row read, in the order the pages came.
    pub fn finish(self) -> (r: Vec<T>)
        ensures
            r@ == self.rows@,
    {
        self.rows
    }
}

} // verus!
