//! Multi-extension session with reverse-insertion-order shutdown: the
//! last extension loaded is the first shut down.

use vstd::prelude::*;
use crate::host::role::Extension;

verus! {

/// Fixed-capacity LIFO container of at most `N` extensions.
pub struct Session<const N: usize> {
    slots: Vec<Extension>,
}

impl<const N: usize> Default for Session<N> {
    fn default() -> (r: Session<N>)
        ensures
            r.wf(),
            r.resident().len() == 0,
    {
        Session::new()
    }
}

impl<const N: usize> Session<N> {
    /// The resident extensions, in insertion order.
    pub closed spec fn resident(&self) -> Seq<Extension> {
        self.slots@
    }

    pub open spec fn wf(&self) -> bool {
        self.resident().len() <= N
    }

    /// Empty session.
    pub fn new() -> (r: Session<N>)
        ensures
            r.wf(),
            r.resident().len() == 0,
    {
        Session { slots: Vec::new() }
    }

    /// Pushes an extension; when the session is full the extension is
    /// handed back and the session is unchanged.
    pub fn push(&mut self, ext: Extension) -> (r: Option<Extension>)
        requires
            old(self).wf(),
        ensures
            final(self).wf(),
            old(self).resident().len() >= N ==> r == Some(ext) && final(self).resident() == old(
                self,
            ).resident(),
            old(self).resident().len() < N ==> r is None && final(self).resident() == old(
                self,
            ).resident().push(ext),
    {
        if self.slots.len() >= N {
            return Some(ext);
        }
        self.slots.push(ext);
        None
    }

    /// Number of resident extensions.
    pub fn len(&self) -> (r: usize)
        ensures
            r == self.resident().len(),
    {
        self.slots.len()
    }

    pub fn is_empty(&self) -> (r: bool)
        ensures
            r == (self.resident().len() == 0),
    {
        self.slots.len() == 0
    }

    /// The `i`-th resident extension, if any.
    pub fn get(&self, i: usize) -> (r: Option<&Extension>)
        ensures
            match r {
                Some(e) => i < self.resident().len() && *e == self.resident()[i as int],
                None => i >= self.resident().len(),
            },
    {
        if i >= self.slots.len() {
            return None;
        }
        Some(&self.slots[i])
    }

    /// Ends the session: the extensions in shutdown order, last pushed
    /// first.
    pub fn shutdown(self) -> (r: Vec<Extension>)
        ensures
            r@ == self.resident().reverse(),
    {
        let ghost orig = self.slots@;
        let mut slots = self.slots;
        let mut out: Vec<Extension> = Vec::new();
        while slots.len() > 0
            invariant
                orig.len() == slots@.len() + out@.len(),
                slots@ == orig.take(slots@.len() as int),
                out@ == orig.skip(slots@.len() as int).reverse(),
            decreases slots.len(),
        {
            let ghost n = slots@.len();
            let e = slots.pop().unwrap();
            out.push(e);
            assert(orig.skip(n - 1).reverse() =~= orig.skip(n as int).reverse().push(orig[n - 1]));
            assert(slots@ =~= orig.take(n - 1));
        }
        assert(orig.skip(0) =~= orig);
        out
    }
}

} // verus!
