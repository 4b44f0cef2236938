//! The parts of the runtime's object layout that this library reads:
//! header flag bits and the derived tests.
pub mod cruby_extra;
