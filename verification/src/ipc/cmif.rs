//! CMIF: the command layer inside the data words of a HIPC message. A
//! request names the command; a response carries the result code.

use vstd::prelude::*;
use crate::error::ErrorCode;
use crate::ipc::wire::{le_u32, push_u32};

verus! {

/// "SFCI", the magic of a request header.
pub const CMIF_IN_MAGIC: u32 = 0x49434653;

/// "SFCO", the magic of a response header.
pub const CMIF_OUT_MAGIC: u32 = 0x4F434653;

/// The header of a request's data.
#[derive(Clone, Copy, PartialEq, Eq, Debug, Structural)]
pub struct CmifInHeader {
    pub magic: u32,
    pub version: u32,
    pub command_id: u32,
    pub token: u32,
}

impl CmifInHeader {
    pub const MAGIC: u32 = 0x49434653;

    pub open spec fn bytes(self) -> Seq<u8> {
        le_u32(self.magic) + le_u32(self.version) + le_u32(self.command_id) + le_u32(self.token)
    }

    /// Append the bytes of the header.
    pub fn write(&self, out: &mut Vec<u8>)
        ensures
            final(out)@ == old(out)@ + self.bytes(),
    {
        let ghost o = out@;
        push_u32(out, self.magic);
        push_u32(out, self.version);
        push_u32(out, self.command_id);
        push_u32(out, self.token);
        assert(out@ =~= o + self.bytes());
    }
}

/// The header of a response's data.
#[derive(Clone, Copy, PartialEq, Eq, Structural)]
pub struct CmifOutHeader {
    pub magic: u32,
    pub version: u32,
    pub result: ErrorCode,
    pub token: u32,
}

impl CmifOutHeader {
    pub const MAGIC: u32 = 0x4F434653;

    pub open spec fn bytes(self) -> Seq<u8> {
        le_u32(self.magic) + le_u32(self.version) + le_u32(self.result@) + le_u32(self.token)
    }

    /// Append the bytes of the header.
    pub fn write(&self, out: &mut Vec<u8>)
        ensures
            final(out)@ == old(out)@ + self.bytes(),
    {
        let ghost o = out@;
        push_u32(out, self.magic);
        push_u32(out, self.version);
        push_u32(out, self.result.repr());
        push_u32(out, self.token);
        assert(out@ =~= o + self.bytes());
    }
}

/// The header of a request to an object of a domain.
#[derive(Clone, Copy, PartialEq, Eq, Debug, Structural)]
pub struct CmifDomainInHeader {
    pub type_: u8,
    pub num_in_objects: u8,
    pub data_size: u16,
    pub object_id: u32,
    pub padding: u32,
    pub token: u32,
}

impl CmifDomainInHeader {
    pub open spec fn bytes(self) -> Seq<u8> {
        seq![self.type_, self.num_in_objects] + crate::ipc::wire::le_u16(self.data_size) + le_u32(self.object_id)
            + le_u32(self.padding) + le_u32(self.token)
    }

    /// Append the bytes of the header.
    pub fn write(&self, out: &mut Vec<u8>)
        ensures
            final(out)@ == old(out)@ + self.bytes(),
    {
        let ghost o = out@;
        out.push(self.type_);
        out.push(self.num_in_objects);
        crate::ipc::wire::push_u16(out, self.data_size);
        push_u32(out, self.object_id);
        push_u32(out, self.padding);
        push_u32(out, self.token);
        assert(out@ =~= o + self.bytes());
    }
}

/// The header of a response from an object of a domain.
#[derive(Clone, Copy, Debug)]
pub struct CmifDomainOutHeader {
    pub num_out_objects: u32,
    pub padding: [u32; 3],
}

impl CmifDomainOutHeader {
    pub open spec fn bytes(self) -> Seq<u8> {
        le_u32(self.num_out_objects) + le_u32(self.padding[0]) + le_u32(self.padding[1]) + le_u32(self.padding[2])
    }

    /// Append the bytes of the header.
    pub fn write(&self, out: &mut Vec<u8>)
        ensures
            final(out)@ == old(out)@ + self.bytes(),
    {
        let ghost o = out@;
        push_u32(out, self.num_out_objects);
        push_u32(out, self.padding[0]);
        push_u32(out, self.padding[1]);
        push_u32(out, self.padding[2]);
        assert(out@ =~= o + self.bytes());
    }
}

} // verus!
