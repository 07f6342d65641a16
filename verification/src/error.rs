//! Horizon result codes: a 9-bit module and a 13-bit description packed into a `u32`.

use vstd::prelude::*;
use crate::swipc::text::{decimal_padded, push_decimal_padded};

verus! {

/// The value of a successful result code.
pub const SUCCESS_VALUE: u32 = 0;
/// Number of bits that hold the module.
pub const MODULE_BITS: u32 = 9;
/// Number of bits that hold the description.
pub const DESCRIPTION_BITS: u32 = 13;
/// Mask of the module bits.
pub const MODULE_MASK: u32 = 0x1ff;
/// Mask of the description bits (not shifted).
pub const DESCRIPTION_MASK: u32 = 0x1fff;

/// The module part of a raw result code value.
pub open spec fn spec_module(value: u32) -> u32 {
    value & 0x1ff
}

/// The description part of a raw result code value.
pub open spec fn spec_description(value: u32) -> u32 {
    (value >> 9u32) & 0x1fff
}

/// The raw value that `from_parts` packs.
pub open spec fn spec_pack(module: u32, desc: u32) -> u32 {
    (module & 0x1ff) | ((desc & 0x1fff) << 9u32)
}

/// Brings `likely` to stable rust: a branch hint that returns its argument.
pub fn likely(b: bool) -> (r: bool)
    ensures
        r == b,
{
    let divisor: i32 = if b { 1 } else { 0 };
    if 1i32.checked_div(divisor).is_some() {
        true
    } else {
        false
    }
}

/// Brings `unlikely` to stable rust: a branch hint that returns its argument.
pub fn unlikely(b: bool) -> (r: bool)
    ensures
        r == b,
{
    let divisor: i32 = if b { 0 } else { 1 };
    if 1i32.checked_div(divisor).is_none() {
        true
    } else {
        false
    }
}

/// A horizon error code, also known as a result code.
#[derive(Clone, Copy, PartialEq, Eq, Structural)]
pub struct ErrorCode {
    value: u32,
}

impl View for ErrorCode {
    type V = u32;

    closed spec fn view(&self) -> u32 {
        self.value
    }
}

impl Default for ErrorCode {
    /// The success code, 0.
    fn default() -> (r: Self)
        ensures
            r@ == 0,
    {
        ErrorCode { value: 0 }
    }
}

impl ErrorCode {
    /// A result code is valid when no bit above the lower 22 bits is set.
    pub open spec fn wf(self) -> bool {
        self@ >> 22u32 == 0
    }

    /// Builds a result code from its raw value, which must use only the lower 22 bits.
    pub fn new(value: u32) -> (r: Self)
        requires
            value >> 22u32 == 0,
        ensures
            r@ == value,
            r.wf(),
    {
        Self::new_unchecked(value)
    }

    /// Builds a result code from its raw value, which must use only the lower 22 bits.
    pub fn new_unchecked(value: u32) -> (r: Self)
        requires
            value >> 22u32 == 0,
        ensures
            r@ == value,
    {
        ErrorCode { value }
    }

    /// Packs a module and a description; bits of either beyond their width are dropped.
    pub fn from_parts(module: u32, desc: u32) -> (r: Self)
        ensures
            r@ == spec_pack(module, desc),
            r.wf(),
            spec_module(r@) == module & 0x1ff,
            spec_description(r@) == desc & 0x1fff,
    {
        let value = (module & MODULE_MASK) | (desc & DESCRIPTION_MASK) << MODULE_BITS;
        proof {
            lemma_pack_unpack(module, desc);
        }
        ErrorCode { value }
    }

    pub fn is_success(&self) -> (r: bool)
        ensures
            r == (self@ == 0),
    {
        self.value == SUCCESS_VALUE
    }

    pub fn is_failure(&self) -> (r: bool)
        ensures
            r == (self@ != 0),
    {
        !self.is_success()
    }

    pub fn repr(&self) -> (r: u32)
        ensures
            r == self@,
    {
        self.value
    }

    pub fn get_module(&self) -> (r: u32)
        ensures
            r == spec_module(self@),
            r < 512,
    {
        let v = self.value;
        let r = v & MODULE_MASK;
        assert(v & 0x1ff < 512) by (bit_vector);
        r
    }

    pub fn get_description(&self) -> (r: u32)
        ensures
            r == spec_description(self@),
            r < 8192,
    {
        let v = self.value;
        let r = (v >> MODULE_BITS) & DESCRIPTION_MASK;
        assert((v >> 9u32) & 0x1fff < 8192) by (bit_vector);
        r
    }
}

/// Packing a module and a description and reading them back gives both parts,
/// cut to their bit widths, and the packed value uses only the lower 22 bits.
pub proof fn lemma_pack_unpack(module: u32, desc: u32)
    ensures
        spec_module(spec_pack(module, desc)) == module & 0x1ff,
        spec_description(spec_pack(module, desc)) == desc & 0x1fff,
        spec_pack(module, desc) >> 22u32 == 0,
{
    assert(((module & 0x1ff) | ((desc & 0x1fff) << 9u32)) & 0x1ff == module & 0x1ff) by (bit_vector);
    assert(((((module & 0x1ff) | ((desc & 0x1fff) << 9u32)) >> 9u32) & 0x1fff) == desc & 0x1fff)
        by (bit_vector);
    assert(((module & 0x1ff) | ((desc & 0x1fff) << 9u32)) >> 22u32 == 0) by (bit_vector);
}

/// Unpacking a valid result code and packing its parts again gives the same code.
pub proof fn lemma_unpack_pack(value: u32)
    requires
        value >> 22u32 == 0,
    ensures
        spec_pack(spec_module(value), spec_description(value)) == value,
{
    assert(value >> 22u32 == 0 ==> ((value & 0x1ff) & 0x1ff) | ((((value >> 9u32) & 0x1fff) & 0x1fff) << 9u32) == value)
        by (bit_vector);
}

/// A module of result codes: its number, and its descriptions as a type.
pub trait ErrorCodeModule: Sized {
    const MODULE: u32;

    /// Whether `desc` is a description the module knows.
    spec fn knows_desc(desc: u32) -> bool;

    /// The error for a description of this module.
    fn from_desc(desc: u32) -> Self
        requires
            Self::knows_desc(desc),
    ;
}

impl ErrorCode {
    /// The raw value as it arrives in a message, taken as it is.
    pub fn from_raw(value: u32) -> (r: Self)
        ensures
            r@ == value,
    {
        ErrorCode { value }
    }

    /// The error of module `T`, if the code belongs to it.
    pub fn try_as<T: ErrorCodeModule>(&self) -> (r: Option<T>)
        requires
            spec_module(self@) == T::MODULE ==> T::knows_desc(spec_description(self@)),
        ensures
            r is Some <==> spec_module(self@) == T::MODULE,
            r matches Some(t) ==> call_ensures(T::from_desc, (spec_description(self@),), t),
    {
        if likely(self.get_module() == T::MODULE) {
            Some(T::from_desc(self.get_description()))
        } else {
            None
        }
    }

    /// `Ok(success)` for a successful code, else the code as an error.
    pub fn into_result<T>(self, success: T) -> (r: Result<T, ErrorCode>)
        ensures
            self@ == 0 ==> r == Ok::<T, ErrorCode>(success),
            self@ != 0 ==> r == Err::<T, ErrorCode>(self),
    {
        if likely(self.is_success()) {
            Ok(success)
        } else {
            Err(self)
        }
    }

    /// What `with_success` gives for a successful code, else the code as an error.
    pub fn into_result_with<T, F: FnOnce() -> T>(self, with_success: F) -> (r: Result<T, ErrorCode>)
        requires
            self@ == 0 ==> with_success.requires(()),
        ensures
            self@ == 0 ==> (r matches Ok(t) && with_success.ensures((), t)),
            self@ != 0 ==> r == Err::<T, ErrorCode>(self),
    {
        if likely(self.is_success()) {
            Ok(with_success())
        } else {
            Err(self)
        }
    }

    /// The code as `MMMM-DDDD`: the module plus 2000, and the description,
    /// each as at least four decimal digits.
    pub open spec fn display_spec(self) -> Seq<u8> {
        decimal_padded((spec_module(self@) + 2000) as nat, 4) + seq![45u8]
            + decimal_padded(spec_description(self@) as nat, 4)
    }

    /// The code as `MMMM-DDDD`, the way it is shown to people.
    pub fn display(&self) -> (r: Vec<u8>)
        ensures
            r@ == self.display_spec(),
    {
        let mut r: Vec<u8> = Vec::new();
        let module = self.get_module();
        push_decimal_padded(&mut r, (module + 2000) as u64, 4);
        r.push(45u8);
        push_decimal_padded(&mut r, self.get_description() as u64, 4);
        r
    }
}

} // verus!
