//! Objects to finalize when the runtime exits.
use vstd::prelude::*;

use crate::object::ObjectReference;

verus! {

/// Objects registered for finalization; at exit everything is finalized,
/// live or not.
pub struct FinalizerProcessor {
    candidates: Vec<ObjectReference>,
}

impl FinalizerProcessor {
    pub closed spec fn candidates_spec(&self) -> Seq<ObjectReference> {
        self.candidates@
    }

    pub fn new() -> (r: Self)
        ensures
            r.candidates_spec() == Seq::<ObjectReference>::empty(),
    {
        FinalizerProcessor { candidates: Vec::new() }
    }

    pub fn candidates(&self) -> (r: &Vec<ObjectReference>)
        ensures
            r@ == self.candidates_spec(),
    {
        &self.candidates
    }

    pub fn register_finalizable(&mut self, reff: ObjectReference)
        ensures
            final(self).candidates_spec() == old(self).candidates_spec().push(reff),
    {
        self.candidates.push(reff);
    }

    /// With `include_live`, takes the most recently registered candidate, if
    /// any; without it, nothing.
    pub fn poll_finalizable(&mut self, include_live: bool) -> (r: Option<ObjectReference>)
        ensures
            include_live && old(self).candidates_spec().len() > 0 ==> r == Some(old(self).candidates_spec().last())
                && final(self).candidates_spec() == old(self).candidates_spec().drop_last(),
            !(include_live && old(self).candidates_spec().len() > 0) ==> r == None::<ObjectReference>
                && final(self).candidates_spec() == old(self).candidates_spec(),
    {
        if include_live {
            self.candidates.pop()
        } else {
            None
        }
    }
}

} // verus!
