//! The object access layer: where an object starts, how big it is, and
//! whether an address may denote an object.
use vstd::prelude::*;

use crate::object::ObjectReference;

verus! {

/// Bytes of the hidden prefix before each object's payload; it holds the payload size.
pub const OBJREF_OFFSET: usize = 8;

/// The alignment of every object.
pub const MIN_OBJ_ALIGN: usize = 8;

/// The bits that a valid hidden size field may use.
pub const HIDDEN_SIZE_MASK: u64 = 0x0000_FFFF_FFFF_FFFF;

/// The granularity of the collector's object-presence bitmap.
pub const VO_BIT_REGION_SIZE: usize = 8;

/// Whether the hidden size field `prefix_word` uses only the allowed bits.
pub open spec fn hidden_header_sane_spec(prefix_word: u64) -> bool {
    prefix_word & !HIDDEN_SIZE_MASK == 0
}

/// Object layout of the runtime's heap objects.
pub struct VMObjectModel {}

impl VMObjectModel {
    /// The address of the object's hidden prefix, where it starts.
    pub fn ref_to_object_start(object: ObjectReference) -> (r: usize)
        requires
            object.addr >= OBJREF_OFFSET,
        ensures
            r == object.addr - OBJREF_OFFSET,
    {
        object.addr - OBJREF_OFFSET
    }

    /// The address of the object's payload, where its header lies.
    pub fn ref_to_header(object: ObjectReference) -> (r: usize)
        ensures
            r == object.addr,
    {
        object.addr
    }

    /// The payload size stored in the hidden prefix word, or `None` when the
    /// word has a bit outside the allowed mask (the header is corrupt).
    pub fn payload_size(prefix_word: u64) -> (r: Option<u64>)
        ensures
            r == (if hidden_header_sane_spec(prefix_word) {
                Some(prefix_word)
            } else {
                None::<u64>
            }),
    {
        if mmtk_hidden_header_is_sane(prefix_word) {
            Some(prefix_word)
        } else {
            None
        }
    }

    /// Prefix, payload and suffix together.
    pub fn object_size(payload_size: u64, suffix_size: u64) -> (r: u64)
        requires
            OBJREF_OFFSET + payload_size + suffix_size <= u64::MAX,
        ensures
            r == OBJREF_OFFSET + payload_size + suffix_size,
    {
        OBJREF_OFFSET as u64 + payload_size + suffix_size
    }

    /// The whole size of an object whose hidden prefix holds `prefix_word`,
    /// with `suffix_size` bytes of trailing metadata; `None` when the header is corrupt.
    pub fn get_current_size(prefix_word: u64, suffix_size: u64) -> (r: Option<u64>)
        requires
            OBJREF_OFFSET + HIDDEN_SIZE_MASK + suffix_size <= u64::MAX,
        ensures
            r == (if hidden_header_sane_spec(prefix_word) {
                Some((OBJREF_OFFSET + prefix_word + suffix_size) as u64)
            } else {
                None::<u64>
            }),
    {
        match Self::payload_size(prefix_word) {
            Some(payload) => {
                assert(payload <= HIDDEN_SIZE_MASK) by (bit_vector)
                    requires
                        payload & !0x0000_FFFF_FFFF_FFFFu64 == 0u64,
                ;
                Some(Self::object_size(payload, suffix_size))
            },
            None => None,
        }
    }
}

/// Whether the hidden size field `prefix_word` uses only the allowed bits.
pub fn mmtk_hidden_header_is_sane(prefix_word: u64) -> (r: bool)
    ensures
        r == hidden_header_sane_spec(prefix_word),
{
    prefix_word & !HIDDEN_SIZE_MASK == 0
}

/// Whether `addr` may be used as an object: not null, aligned to the
/// object-presence bitmap, and the collector confirms that an object starts
/// there (`collector_confirms`).
pub fn is_mmtk_object_safe(addr: usize, collector_confirms: bool) -> (r: bool)
    ensures
        r == (addr != 0 && addr % VO_BIT_REGION_SIZE == 0 && collector_confirms),
{
    addr != 0 && addr % VO_BIT_REGION_SIZE == 0 && collector_confirms
}

} // verus!
