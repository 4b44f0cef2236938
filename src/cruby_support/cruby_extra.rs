//! Layout constants of the runtime's objects and the accessors built on them.
use vstd::prelude::*;

use crate::object::VALUE;

verus! {

/// Bytes in a `VALUE`.
pub const SIZEOF_VALUE: usize = 8;

/// Where the user flag bits of an object header start.
pub const RUBY_FL_USHIFT: usize = 12;

/// The "has generic instance variables" header flag.
pub const RUBY_FL_EXIVAR: usize = 0x400;

pub const RUBY_FL_USER1: usize = 0x2000;
pub const RUBY_FL_USER2: usize = 0x4000;
pub const RUBY_FL_USER18: usize = 0x4000_0000;

/// Objects: instance variables are embedded in the object.
pub const ROBJECT_EMBED: usize = RUBY_FL_USER1;

/// Arrays: elements are embedded in the object.
pub const RARRAY_EMBED_FLAG: usize = RUBY_FL_USER1;

/// Arrays: where the embedded length starts in the header, and its bits.
pub const RARRAY_EMBED_LEN_SHIFT: usize = 15;
pub const RARRAY_EMBED_LEN_MASK: usize = 0x3F_8000;

/// Byte offset of the embedded elements of an array.
pub const RUBY_OFFSET_RARRAY_AS_ARY: usize = 16;

/// Bits of a shape id and where it lies in an object header.
pub const SHAPE_ID_NUM_BITS: usize = 32;
pub const SHAPE_FLAG_SHIFT: u64 = 32;
pub const SHAPE_MASK: u64 = 0xFFFF_FFFF;

/// The shape of objects whose instance variables live in a hash table.
pub const OBJ_TOO_COMPLEX_SHAPE_ID: u32 = 2;

pub const STR_NO_EMBED: usize = RUBY_FL_USER1;
pub const STR_SHARED: usize = RUBY_FL_USER2;
pub const STR_NOFREE: usize = RUBY_FL_USER18;

pub const IMEMO_MASK: u32 = 0x0f;

/// The two internal-memo types this library allocates.
pub const IMEMO_MMTK_STRBUF: u32 = 14;
pub const IMEMO_MMTK_OBJBUF: u32 = 15;

/// The header of a buffer holding the elements of a large object.
#[derive(Clone, Copy, Debug, PartialEq, Eq, Structural)]
pub struct IMemoObjBuf {
    pub flags: usize,
    pub capa: usize,
}

/// The start of an object whose instance variables are embedded.
#[derive(Clone, Copy, Debug, PartialEq, Eq, Structural)]
pub struct RObjectEmbedded {
    pub flags: usize,
    pub klass: VALUE,
}

/// The shape id stored in the high bits of an object's header flags.
pub fn robject_shape_id(flags: usize) -> (r: u32)
    ensures
        r as u64 == ((flags as u64) >> SHAPE_FLAG_SHIFT) & SHAPE_MASK,
{
    let wide = flags as u64;
    let shape_id = (wide >> SHAPE_FLAG_SHIFT) & SHAPE_MASK;
    assert(shape_id <= 0xFFFF_FFFF) by (bit_vector)
        requires
            shape_id == (wide >> 32u64) & 0xFFFF_FFFFu64,
    ;
    shape_id as u32
}

pub fn shape_id_is_too_complex(shape_id: u32) -> (r: bool)
    ensures
        r == (shape_id == OBJ_TOO_COMPLEX_SHAPE_ID),
{
    shape_id == OBJ_TOO_COMPLEX_SHAPE_ID
}

/// The number of elements embedded in an array, from its header flags.
pub fn rarray_embed_len(flags: usize) -> (r: usize)
    ensures
        r == (flags & RARRAY_EMBED_LEN_MASK) >> RARRAY_EMBED_LEN_SHIFT,
        r < 128,
{
    let masked = flags & RARRAY_EMBED_LEN_MASK;
    let r = masked >> RARRAY_EMBED_LEN_SHIFT;
    assert(r < 128) by (bit_vector)
        requires
            r == (flags & 0x3F_8000usize) >> 15usize,
    ;
    r
}

/// The address of the elements embedded in the array `value`.
pub fn rarray_embed_ary_addr(value: VALUE) -> (r: usize)
    requires
        value.0 + RUBY_OFFSET_RARRAY_AS_ARY <= usize::MAX,
    ensures
        r == value.0 + RUBY_OFFSET_RARRAY_AS_ARY,
{
    value.0 + RUBY_OFFSET_RARRAY_AS_ARY
}

/// The internal-memo type of an object, from its header flags.
pub fn get_imemo_type(flags: usize) -> (r: u32)
    ensures
        r == ((flags >> RUBY_FL_USHIFT) as u32) & IMEMO_MASK,
        r < 16,
{
    let r = ((flags >> RUBY_FL_USHIFT) as u32) & IMEMO_MASK;
    assert(r < 16) by (bit_vector)
        requires
            r == ((flags >> 12usize) as u32) & 0x0fu32,
    ;
    r
}

} // verus!
