//! The per-thread context of collector threads and the child-visitor slot
//! through which the runtime reports the children of the objects it walks.
use vstd::prelude::*;

use crate::forwarding::Liveness;
use crate::object::ObjectReference;

verus! {

/// What the installed child visitor does with each reported child.
#[derive(Clone, Copy, Debug, PartialEq, Eq, Structural)]
pub enum ChildVisitor {
    /// Weak-table sweeps: answer with the child's current location.
    Forward,
    /// PPP child discovery: remember the children flagged "must pin".
    PinChildren,
    /// Root scanning: remember every child.
    CollectRoots,
}

#[derive(Clone, Copy, Debug, PartialEq, Eq, Structural)]
pub enum ObjectClosureError {
    /// A visitor was installed while another one was.
    Reentered,
    /// A child was reported while no visitor was installed.
    Unregistered,
}

/// The child-visitor slot of one collector thread.
pub struct ObjectClosure {
    visitor: Option<ChildVisitor>,
    visited: Vec<ObjectReference>,
}

impl ObjectClosure {
    /// The installed visitor, if any.
    pub closed spec fn visitor_spec(&self) -> Option<ChildVisitor> {
        self.visitor
    }

    /// The children remembered since the visitor was installed.
    pub closed spec fn visited_spec(&self) -> Seq<ObjectReference> {
        self.visited@
    }

    pub fn new() -> (r: Self)
        ensures
            r.visitor_spec() == None::<ChildVisitor>,
            r.visited_spec() == Seq::<ObjectReference>::empty(),
    {
        ObjectClosure { visitor: None, visited: Vec::new() }
    }

    /// The installed visitor, if any.
    pub fn visitor(&self) -> (r: Option<ChildVisitor>)
        ensures
            r == self.visitor_spec(),
    {
        self.visitor
    }

    /// Installs `visitor`. Refused when one is installed already: sessions never nest.
    pub fn set_temporarily(&mut self, visitor: ChildVisitor) -> (r: Result<(), ObjectClosureError>)
        ensures
            old(self).visitor_spec().is_some() <==> r == Err::<(), ObjectClosureError>(ObjectClosureError::Reentered),
            old(self).visitor_spec().is_none() ==> r == Ok::<(), ObjectClosureError>(()),
            r.is_err() ==> final(self).visitor_spec() == old(self).visitor_spec()
                && final(self).visited_spec() == old(self).visited_spec(),
            r.is_ok() ==> final(self).visitor_spec() == Some(visitor)
                && final(self).visited_spec() == Seq::<ObjectReference>::empty(),
    {
        if self.visitor.is_some() {
            return Err(ObjectClosureError::Reentered);
        }
        self.visitor = Some(visitor);
        self.visited = Vec::new();
        Ok(())
    }

    /// The runtime reports `child` (flagged `pin` if it must not move); the
    /// result is the value the runtime must write back into the field.
    pub fn visit(&mut self, liveness: &Liveness, child: ObjectReference, pin: bool) -> (r: Result<ObjectReference, ObjectClosureError>)
        requires
            liveness.inv(),
        ensures
            final(self).visitor_spec() == old(self).visitor_spec(),
            match old(self).visitor_spec() {
                None => r == Err::<ObjectReference, ObjectClosureError>(ObjectClosureError::Unregistered)
                    && final(self).visited_spec() == old(self).visited_spec(),
                Some(ChildVisitor::Forward) => r == Ok::<ObjectReference, ObjectClosureError>(liveness@.forward(child))
                    && final(self).visited_spec() == old(self).visited_spec(),
                Some(ChildVisitor::PinChildren) => r == Ok::<ObjectReference, ObjectClosureError>(child)
                    && final(self).visited_spec() == (if pin {
                        old(self).visited_spec().push(child)
                    } else {
                        old(self).visited_spec()
                    }),
                Some(ChildVisitor::CollectRoots) => r == Ok::<ObjectReference, ObjectClosureError>(child)
                    && final(self).visited_spec() == old(self).visited_spec().push(child),
            },
    {
        match self.visitor {
            None => Err(ObjectClosureError::Unregistered),
            Some(ChildVisitor::Forward) => Ok(liveness.forward(child)),
            Some(ChildVisitor::PinChildren) => {
                if pin {
                    self.visited.push(child);
                }
                Ok(child)
            },
            Some(ChildVisitor::CollectRoots) => {
                self.visited.push(child);
                Ok(child)
            },
        }
    }

    /// Uninstalls the visitor and hands back the children it remembered.
    pub fn reset(&mut self) -> (r: Vec<ObjectReference>)
        ensures
            r@ == old(self).visited_spec(),
            final(self).visitor_spec() == None::<ChildVisitor>,
            final(self).visited_spec() == Seq::<ObjectReference>::empty(),
    {
        let mut r: Vec<ObjectReference> = Vec::new();
        std::mem::swap(&mut self.visited, &mut r);
        self.visitor = None;
        r
    }
}

/// The kind of a collector thread.
#[derive(Clone, Copy, Debug, PartialEq, Eq, Structural)]
pub enum GCThreadKind {
    Controller,
    Worker,
}

/// The context record of one collector thread.
pub struct GCThreadTLS {
    pub kind: GCThreadKind,
    pub object_closure: ObjectClosure,
}

impl GCThreadTLS {
    pub fn for_controller() -> (r: Self)
        ensures
            r.kind == GCThreadKind::Controller,
            r.object_closure.visitor_spec() == None::<ChildVisitor>,
    {
        GCThreadTLS { kind: GCThreadKind::Controller, object_closure: ObjectClosure::new() }
    }

    pub fn for_worker() -> (r: Self)
        ensures
            r.kind == GCThreadKind::Worker,
            r.object_closure.visitor_spec() == None::<ChildVisitor>,
    {
        GCThreadTLS { kind: GCThreadKind::Worker, object_closure: ObjectClosure::new() }
    }
}

} // verus!
