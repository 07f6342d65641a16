//! The client of the loader's process manager interface, `ldr:pm`.

use vstd::prelude::*;
use crate::error::ErrorCode;
use crate::handle::{OwnedHandle, RawHandle, SharedHandle};
use crate::ipc::message::{Request, zeros};
use crate::ipc::wire::{from_le_u32, from_le_u64, le_u32, le_u64, push_u32, push_u64, push_zeros, read_u32, read_u64};
use crate::ipcdef::call::{
    address_ok, call_failure, call_result, no_buffers, out_pointer, out_pointer_is, reports, request, request_shape,
};
use crate::ipcdef::types::{PinId, ProgramLocation};
use crate::swipc::text::push_bytes;

verus! {

/// A session with `ldr::IProcessManagerInterface`.
pub struct IProcessManagerInterface<S> {
    pub handle: S,
}

/// The bytes of a program location: the program id, the storage and the
/// seven bytes of padding as the value holds them.
pub open spec fn location_bytes(loc: ProgramLocation) -> Seq<u8> {
    le_u64(loc.program_id) + seq![loc.storage_id.value_spec()] + loc._padding_0@
}

/// Append the bytes of a program location.
fn push_location(out: &mut Vec<u8>, loc: &ProgramLocation)
    ensures
        final(out)@ == old(out)@ + location_bytes(*loc),
{
    let ghost o = out@;
    push_u64(out, loc.program_id);
    out.push(loc.storage_id.to_u8());
    push_bytes(out, loc._padding_0.as_slice());
    assert(out@ =~= o + location_bytes(*loc));
}

/// The raw data of `CreateProcess`: the flags, four bytes of padding and the
/// pin id.
pub open spec fn create_process_data(id: PinId, flags: u32) -> Seq<u8> {
    le_u32(flags) + zeros(4) + le_u64(id.value)
}

/// The size of a `ProgramInfo`.
pub const PROGRAM_INFO_SIZE: usize = 1024;

impl IProcessManagerInterface<OwnedHandle> {
    /// Turn the session into one whose clones share its handle.
    pub fn into_shared(self) -> (r: IProcessManagerInterface<SharedHandle>)
        ensures
            r.handle@ == self.handle@,
    {
        IProcessManagerInterface { handle: SharedHandle::new(self.handle.leak()) }
    }
}

impl<S> IProcessManagerInterface<S> {
    pub fn new(handle: S) -> (r: Self)
        ensures
            r.handle == handle,
    {
        Self { handle }
    }

    pub fn into_inner(self) -> (r: S)
        ensures
            r == self.handle,
    {
        self.handle
    }

    /// The request of `CreateProcess` (command 0): the resource limit handle
    /// is copied to the loader.
    pub fn create_process_request(&self, id: PinId, flags: u32, reslimit_h: RawHandle) -> (r: Request)
        ensures
            request_shape(r, 0, false, seq![reslimit_h.0], Seq::empty(), create_process_data(id, flags)),
            no_buffers(r),
    {
        let mut raw: Vec<u8> = Vec::new();
        push_u32(&mut raw, flags);
        push_zeros(&mut raw, 4);
        push_u64(&mut raw, id.value);
        assert(raw@ =~= create_process_data(id, flags));
        let mut r = request(0, raw);
        r.copy_handles.push(reslimit_h.0);
        assert(r.copy_handles@ =~= seq![reslimit_h.0]);
        r
    }

    /// The process handle that `CreateProcess` returns.
    pub fn create_process_response(&self, b: &[u8]) -> (r: Result<OwnedHandle, ErrorCode>)
        requires
            b@.len() >= 48,
        ensures
            reports(r, call_failure(b@, 16, true)),
            r matches Ok(h) ==> h@ == from_le_u32(b@.skip(12)),
    {
        match call_result(b, 16, true) {
            Ok(()) => Ok(OwnedHandle::new(RawHandle(read_u32(b, 12)))),
            Err(e) => Err(e),
        }
    }

    /// The request of `GetProgramInfo` (command 1): the location, and the
    /// `ProgramInfo` at `out_address` as the receive buffer it is written to.
    pub fn get_program_info_request(&self, loc: ProgramLocation, out_address: usize) -> (r: Request)
        requires
            address_ok(out_address),
        ensures
            request_shape(r, 1, false, Seq::empty(), Seq::empty(), location_bytes(loc)),
            r.in_pointers@.len() == 0,
            r.in_map_aliases@.len() == 0,
            r.out_map_aliases@.len() == 0,
            r.out_pointers@.len() == 1,
            out_pointer_is(r.out_pointers@[0], out_address as nat, PROGRAM_INFO_SIZE as nat),
    {
        let mut raw: Vec<u8> = Vec::new();
        push_location(&mut raw, &loc);
        let mut r = request(1, raw);
        r.out_pointers.push(out_pointer(out_address, PROGRAM_INFO_SIZE));
        r
    }

    /// Whether `GetProgramInfo` succeeded; the information is in the buffer.
    pub fn get_program_info_response(&self, b: &[u8]) -> (r: Result<(), ErrorCode>)
        requires
            b@.len() >= 48,
        ensures
            reports(r, call_failure(b@, 16, false)),
    {
        call_result(b, 16, false)
    }

    /// The request of `PinProgram` (command 2): the location.
    pub fn pin_program_request(&self, loc: ProgramLocation) -> (r: Request)
        ensures
            request_shape(r, 2, false, Seq::empty(), Seq::empty(), location_bytes(loc)),
            no_buffers(r),
    {
        let mut raw: Vec<u8> = Vec::new();
        push_location(&mut raw, &loc);
        request(2, raw)
    }

    /// The pin id that `PinProgram` returns.
    pub fn pin_program_response(&self, b: &[u8]) -> (r: Result<PinId, ErrorCode>)
        requires
            b@.len() >= 48,
        ensures
            reports(r, call_failure(b@, 16, false)),
            r matches Ok(id) ==> id.value == from_le_u64(b@.skip(32)),
    {
        match call_result(b, 16, false) {
            Ok(()) => Ok(PinId { value: read_u64(b, 32) }),
            Err(e) => Err(e),
        }
    }

    /// The request of `UnpinProgram` (command 3): the pin id.
    pub fn unpin_program_request(&self, id: PinId) -> (r: Request)
        ensures
            request_shape(r, 3, false, Seq::empty(), Seq::empty(), le_u64(id.value)),
            no_buffers(r),
    {
        let mut raw: Vec<u8> = Vec::new();
        push_u64(&mut raw, id.value);
        assert(raw@ =~= le_u64(id.value));
        request(3, raw)
    }

    /// Whether `UnpinProgram` succeeded.
    pub fn unpin_program_response(&self, b: &[u8]) -> (r: Result<(), ErrorCode>)
        requires
            b@.len() >= 40,
        ensures
            reports(r, call_failure(b@, 16, false)),
    {
        call_result(b, 16, false)
    }

    /// The request of `SetEnabledProgramVerification` (command 4): one byte,
    /// 1 to enable.
    pub fn set_enabled_program_verification_request(&self, enabled: bool) -> (r: Request)
        ensures
            request_shape(r, 4, false, Seq::empty(), Seq::empty(), seq![if enabled { 1u8 } else { 0u8 }]),
            no_buffers(r),
    {
        let mut raw: Vec<u8> = Vec::new();
        raw.push(if enabled { 1u8 } else { 0u8 });
        assert(raw@ =~= seq![if enabled { 1u8 } else { 0u8 }]);
        request(4, raw)
    }

    /// Whether `SetEnabledProgramVerification` succeeded.
    pub fn set_enabled_program_verification_response(&self, b: &[u8]) -> (r: Result<(), ErrorCode>)
        requires
            b@.len() >= 40,
        ensures
            reports(r, call_failure(b@, 16, false)),
    {
        call_result(b, 16, false)
    }
}

} // verus!
