//! The client of the random number interface of the security processor
//! service, `csrng`.

use vstd::prelude::*;
use crate::error::ErrorCode;
use crate::handle::{OwnedHandle, SharedHandle};
use crate::ipc::hipc::MapAliasBufferMode;
use crate::ipc::message::Request;
use crate::ipcdef::call::{
    address_ok, call_failure, call_result, map_alias, map_alias_is, reports, request, request_shape,
};

verus! {

/// A session with `spl::IRandomInterface`.
pub struct IRandomInterface<S> {
    pub handle: S,
}

impl IRandomInterface<OwnedHandle> {
    /// Turn the session into one whose clones share its handle.
    pub fn into_shared(self) -> (r: IRandomInterface<SharedHandle>)
        ensures
            r.handle@ == self.handle@,
    {
        IRandomInterface { handle: SharedHandle::new(self.handle.leak()) }
    }
}

impl<S> IRandomInterface<S> {
    pub fn new(handle: S) -> (r: Self)
        ensures
            r.handle == handle,
    {
        Self { handle }
    }

    pub fn into_inner(self) -> (r: S)
        ensures
            r == self.handle,
    {
        self.handle
    }

    /// The request of `GenerateRandomBytes` (command 0): the buffer at
    /// `address` with `size` bytes, which the service fills, mapped as an out
    /// buffer.
    pub fn generate_random_bytes_request(&self, address: usize, size: usize) -> (r: Request)
        requires
            address_ok(address),
            size as u64 >> 36u64 == 0,
        ensures
            request_shape(r, 0, false, Seq::empty(), Seq::empty(), Seq::empty()),
            r.in_pointers@.len() == 0,
            r.in_map_aliases@.len() == 0,
            r.out_map_aliases@.len() == 1,
            map_alias_is(r.out_map_aliases@[0], MapAliasBufferMode::Normal, address as nat, size as nat),
            r.out_pointers@.len() == 0,
    {
        let mut r = request(0, Vec::new());
        r.out_map_aliases.push(map_alias(MapAliasBufferMode::Normal, address, size));
        r
    }

    /// Whether `GenerateRandomBytes` succeeded; the bytes are in the buffer.
    pub fn generate_random_bytes_response(&self, b: &[u8]) -> (r: Result<(), ErrorCode>)
        requires
            b@.len() >= 40,
        ensures
            reports(r, call_failure(b@, 16, false)),
    {
        call_result(b, 16, false)
    }
}

} // verus!
