//! Process-wide binding state that is not owned by a more specific component.
use vstd::prelude::*;

use crate::cruby_support::cruby_extra::RUBY_FL_EXIVAR;
use crate::cruby_support::flag_tests::robject_has_exivar;
use crate::object::ObjectReference;
use crate::object_set::ObjectSet;

verus! {

/// Settings read on fast paths.
pub struct RubyBindingFast {
    pub gc_enabled: bool,
}

impl RubyBindingFast {
    /// Collection starts enabled.
    pub fn new() -> (r: Self)
        ensures
            r.gc_enabled,
    {
        RubyBindingFast { gc_enabled: true }
    }
}

/// Settings fixed at initialization and read on fast paths.
pub struct RubyBindingFastMut {
    /// Bytes of trailing metadata after each object (nonzero only in a debug build of the runtime).
    pub suffix_size: u64,
}

impl RubyBindingFastMut {
    pub fn new() -> (r: Self)
        ensures
            r.suffix_size == 0,
    {
        RubyBindingFastMut { suffix_size: 0 }
    }
}

/// An object with generic instance variables that was copied: its table
/// entry must be moved from `old_objref` to the new copy.
#[derive(Clone, Copy, Debug, PartialEq, Eq, Structural)]
pub struct MovedGIVTblEntry {
    pub new_objref: ObjectReference,
    pub old_objref: ObjectReference,
    pub gen_ivtbl: usize,
}

/// Why the copy of an object could not be recorded.
#[derive(Clone, Copy, Debug, PartialEq, Eq, Structural)]
pub enum CopyRecordError {
    /// The object is flagged as having generic instance variables but has no table.
    MissingGenIvtbl,
    /// A move to the same new object was recorded already in this cycle.
    AlreadyRecorded,
}

/// The new objects of a sequence of recorded moves, in order.
pub open spec fn new_objects(s: Seq<MovedGIVTblEntry>) -> Seq<ObjectReference> {
    s.map_values(|e: MovedGIVTblEntry| e.new_objref)
}

/// The moves of generic-instance-variable table entries recorded while
/// copying objects, keyed by the new object (each new object once), and
/// replayed before the table is cleaned up.
pub struct MovedGIVTbl {
    entries: Vec<MovedGIVTblEntry>,
    recorded: ObjectSet,
}

impl MovedGIVTbl {
    pub closed spec fn inv(&self) -> bool {
        &&& self.recorded.inv()
        &&& self.recorded.items_spec() == new_objects(self.entries@)
    }

    pub closed spec fn entries_spec(&self) -> Seq<MovedGIVTblEntry> {
        self.entries@
    }

    /// No new object has two recorded moves.
    pub proof fn lemma_new_objects_unique(&self)
        requires
            self.inv(),
        ensures
            new_objects(self.entries_spec()).no_duplicates(),
    {
        self.recorded.lemma_no_duplicates();
    }

    pub fn new() -> (r: Self)
        ensures
            r.inv(),
            r.entries_spec() == Seq::<MovedGIVTblEntry>::empty(),
    {
        let r = MovedGIVTbl { entries: Vec::new(), recorded: ObjectSet::new() };
        proof {
            assert(new_objects(r.entries@) =~= Seq::<ObjectReference>::empty());
        }
        r
    }

    /// Records that the object `old_objref`, whose table is `gen_ivtbl`, was
    /// copied to `new_objref`. Refused (`false`, nothing changes) when a move
    /// to `new_objref` is recorded already.
    pub fn insert(&mut self, new_objref: ObjectReference, old_objref: ObjectReference, gen_ivtbl: usize) -> (r: bool)
        requires
            old(self).inv(),
        ensures
            final(self).inv(),
            r == !new_objects(old(self).entries_spec()).contains(new_objref),
            final(self).entries_spec() == (if r {
                old(self).entries_spec().push(MovedGIVTblEntry { new_objref, old_objref, gen_ivtbl })
            } else {
                old(self).entries_spec()
            }),
    {
        if !self.recorded.insert(new_objref) {
            return false;
        }
        let ghost before = self.entries@;
        let e = MovedGIVTblEntry { new_objref, old_objref, gen_ivtbl };
        self.entries.push(e);
        proof {
            assert(new_objects(self.entries@) =~= new_objects(before).push(new_objref));
        }
        true
    }

    /// Called when `from` was copied to `to`: an object whose header `flags`
    /// say it has generic instance variables has its table `gen_ivtbl`'s move
    /// recorded (`Ok(true)`); such an object without a table is corrupt, and a
    /// second record for `to` is refused (`Err`, nothing recorded); any other
    /// object needs nothing (`Ok(false)`).
    pub fn record_copied_object(
        &mut self,
        from: ObjectReference,
        to: ObjectReference,
        flags: usize,
        gen_ivtbl: usize,
    ) -> (r: Result<bool, CopyRecordError>)
        requires
            old(self).inv(),
        ensures
            final(self).inv(),
            (flags & RUBY_FL_EXIVAR) == 0 ==> r == Ok::<bool, CopyRecordError>(false)
                && final(self).entries_spec() == old(self).entries_spec(),
            (flags & RUBY_FL_EXIVAR) != 0 && gen_ivtbl == 0 ==> r == Err::<bool, CopyRecordError>(
                CopyRecordError::MissingGenIvtbl,
            ) && final(self).entries_spec() == old(self).entries_spec(),
            (flags & RUBY_FL_EXIVAR) != 0 && gen_ivtbl != 0 && new_objects(old(self).entries_spec()).contains(to)
                ==> r == Err::<bool, CopyRecordError>(CopyRecordError::AlreadyRecorded)
                && final(self).entries_spec() == old(self).entries_spec(),
            (flags & RUBY_FL_EXIVAR) != 0 && gen_ivtbl != 0 && !new_objects(old(self).entries_spec()).contains(to)
                ==> r == Ok::<bool, CopyRecordError>(true) && final(self).entries_spec()
                == old(self).entries_spec().push(MovedGIVTblEntry { new_objref: to, old_objref: from, gen_ivtbl }),
    {
        if !robject_has_exivar(flags) {
            return Ok(false);
        }
        if gen_ivtbl == 0 {
            return Err(CopyRecordError::MissingGenIvtbl);
        }
        if self.insert(to, from, gen_ivtbl) {
            Ok(true)
        } else {
            Err(CopyRecordError::AlreadyRecorded)
        }
    }

    /// Takes every recorded move out, each once, leaving none: the table's
    /// cleanup may only run once they are all replayed.
    pub fn drain(&mut self) -> (r: Vec<MovedGIVTblEntry>)
        requires
            old(self).inv(),
        ensures
            final(self).inv(),
            r@ == old(self).entries_spec(),
            final(self).entries_spec() == Seq::<MovedGIVTblEntry>::empty(),
    {
        let mut r: Vec<MovedGIVTblEntry> = Vec::new();
        std::mem::swap(&mut self.entries, &mut r);
        self.recorded = ObjectSet::new();
        proof {
            assert(new_objects(self.entries@) =~= Seq::<ObjectReference>::empty());
        }
        r
    }
}

} // verus!
