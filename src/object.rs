//! Object handles and raw runtime values.
use vstd::prelude::*;

verus! {

/// A handle to a heap object: the address of the object's payload.
/// Valid handles are never null.
#[derive(Clone, Copy, Debug, PartialEq, Eq, Hash, Structural)]
pub struct ObjectReference {
    pub addr: usize,
}

impl ObjectReference {
    /// Wraps a raw non-null address.
    pub fn from_raw_address(addr: usize) -> (r: ObjectReference)
        requires
            addr != 0,
        ensures
            r.addr == addr,
    {
        ObjectReference { addr }
    }

    /// The raw address of this handle.
    pub fn to_raw_address(&self) -> (r: usize)
        ensures
            r == self.addr,
    {
        self.addr
    }
}

/// The runtime's "undefined" value, written into dead weak fields.
pub const QUNDEF: usize = 0x24;

/// The runtime's `false`, the one special constant that is not immediate.
pub const QFALSE: usize = 0x00;

/// The low bits that mark an immediate value (fixnum, flonum, symbol, nil, true, undef).
pub const RUBY_IMMEDIATE_MASK: usize = 0x07;

/// A raw runtime value: either an immediate (special constant) or the
/// address of a heap object.
#[allow(non_camel_case_types)]
#[derive(Clone, Copy, Debug, PartialEq, Eq, Hash, Structural)]
pub struct VALUE(pub usize);

impl VALUE {
    /// An immediate or `false`: a value that refers to no heap object.
    pub open spec fn is_special_const_spec(self) -> bool {
        (self.0 & RUBY_IMMEDIATE_MASK) != 0 || self.0 == QFALSE
    }

    pub fn is_special_const(&self) -> (r: bool)
        ensures
            r == self.is_special_const_spec(),
    {
        my_special_const_p(*self)
    }

    /// The address of the object's `RBasic` header.
    pub fn as_basic(self) -> (r: usize)
        ensures
            r == self.0,
    {
        self.0
    }

    pub fn from_objref(o: ObjectReference) -> (r: VALUE)
        ensures
            r.0 == o.addr,
    {
        VALUE(o.addr)
    }
}

/// Whether `value` is a special constant (an immediate or `false`).
pub fn my_special_const_p(value: VALUE) -> (r: bool)
    ensures
        r == value.is_special_const_spec(),
{
    let cval = value.0;
    let is_immediate = cval & RUBY_IMMEDIATE_MASK != 0;
    let is_false = cval == QFALSE;
    is_immediate || is_false
}

/// Whether `v` holds `h`.
pub fn contains_handle(v: &Vec<ObjectReference>, h: ObjectReference) -> (r: bool)
    ensures
        r == v@.contains(h),
{
    let mut i: usize = 0;
    while i < v.len()
        invariant
            i <= v@.len(),
            forall|j: int| 0 <= j < i ==> v@[j] != h,
        decreases v@.len() - i,
    {
        if v[i] == h {
            proof {
                assert(v@[i as int] == h);
            }
            return true;
        }
        i = i + 1;
    }
    false
}

} // verus!
