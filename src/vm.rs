//! State of the binding that lives as long as the runtime.
use vstd::prelude::*;

use crate::finalize::FinalizerProcessor;

verus! {

pub struct BindingState {
    pub finalizer_processor: FinalizerProcessor,
}

impl BindingState {
    pub fn new() -> (r: Self)
        ensures
            r.finalizer_processor.candidates_spec() == Seq::<crate::object::ObjectReference>::empty(),
    {
        BindingState { finalizer_processor: FinalizerProcessor::new() }
    }
}

} // verus!
