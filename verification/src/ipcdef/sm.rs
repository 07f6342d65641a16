//! The client of the service manager's user interface, `sm:`.

use vstd::prelude::*;
use crate::error::ErrorCode;
use crate::handle::{OwnedHandle, RawHandle, SharedHandle};
use crate::ipc::message::{Request, zeros};
use crate::ipc::wire::{from_le_u32, le_u32, push_u32, push_zeros, read_u32};
use crate::ipcdef::call::{call_failure, call_result, no_buffers, reports, request, request_shape};
use crate::ipcdef::path::ServiceName;
use crate::swipc::text::push_bytes;

verus! {

/// A session type that a service's raw handle opens.
pub trait SmServiceType: From<RawHandle> {
}

/// A service registered with the service manager: its name and the session
/// type that talks to it.
pub trait SmService {
    type Type: SmServiceType;

    fn name() -> ServiceName;
}

/// A session with `sm::IUserInterface`.
pub struct IUserInterface<S> {
    pub handle: S,
}

/// The raw data of `RegisterService`: the name, whether the service is light,
/// three bytes of padding and the maximum number of sessions.
pub open spec fn register_service_data(name: ServiceName, max_sessions: u32, is_light: bool) -> Seq<u8> {
    name.name@ + seq![if is_light { 1u8 } else { 0u8 }] + zeros(3) + le_u32(max_sessions)
}

/// A handle returned by a command: the word after the special header.
pub open spec fn returned_handle(b: Seq<u8>) -> u32 {
    from_le_u32(b.skip(12))
}

/// Read the handle that a command returns, when it succeeded.
fn handle_response(b: &[u8]) -> (r: Result<OwnedHandle, ErrorCode>)
    requires
        b@.len() >= 48,
    ensures
        reports(r, call_failure(b@, 16, true)),
        r matches Ok(h) ==> h@ == returned_handle(b@),
{
    match call_result(b, 16, true) {
        Ok(()) => Ok(OwnedHandle::new(RawHandle(read_u32(b, 12)))),
        Err(e) => Err(e),
    }
}

impl IUserInterface<OwnedHandle> {
    /// Turn the session into one whose clones share its handle.
    pub fn into_shared(self) -> (r: IUserInterface<SharedHandle>)
        ensures
            r.handle@ == self.handle@,
    {
        IUserInterface { handle: SharedHandle::new(self.handle.leak()) }
    }
}

impl<S> IUserInterface<S> {
    pub fn new(handle: S) -> (r: Self)
        ensures
            r.handle == handle,
    {
        Self { handle }
    }

    pub fn into_inner(self) -> (r: S)
        ensures
            r == self.handle,
    {
        self.handle
    }

    /// The request of `Initialize` (command 0): it sends the process id,
    /// with eight bytes of raw data where the kernel puts it.
    pub fn initialize_request(&self) -> (r: Request)
        ensures
            request_shape(r, 0, true, Seq::empty(), Seq::empty(), zeros(8)),
            no_buffers(r),
    {
        let mut raw: Vec<u8> = Vec::new();
        push_zeros(&mut raw, 8);
        assert(raw@ =~= zeros(8));
        let mut r = request(0, raw);
        r.send_pid = true;
        r
    }

    /// Whether `Initialize` succeeded.
    pub fn initialize_response(&self, b: &[u8]) -> (r: Result<(), ErrorCode>)
        requires
            b@.len() >= 40,
        ensures
            reports(r, call_failure(b@, 16, false)),
    {
        call_result(b, 16, false)
    }

    /// The request of `GetService` (command 1): the name of the service.
    pub fn get_service_request(&self, name: ServiceName) -> (r: Request)
        ensures
            request_shape(r, 1, false, Seq::empty(), Seq::empty(), name.name@),
            no_buffers(r),
    {
        let mut raw: Vec<u8> = Vec::new();
        push_bytes(&mut raw, name.name.as_slice());
        request(1, raw)
    }

    /// The session handle that `GetService` returns.
    pub fn get_service_response(&self, b: &[u8]) -> (r: Result<OwnedHandle, ErrorCode>)
        requires
            b@.len() >= 48,
        ensures
            reports(r, call_failure(b@, 16, true)),
            r matches Ok(h) ==> h@ == returned_handle(b@),
    {
        handle_response(b)
    }

    /// The request of `RegisterService` (command 2).
    pub fn register_service_request(&self, name: ServiceName, max_sessions: u32, is_light: bool) -> (r: Request)
        ensures
            request_shape(r, 2, false, Seq::empty(), Seq::empty(), register_service_data(name, max_sessions, is_light)),
            no_buffers(r),
    {
        let mut raw: Vec<u8> = Vec::new();
        push_bytes(&mut raw, name.name.as_slice());
        raw.push(if is_light { 1u8 } else { 0u8 });
        push_zeros(&mut raw, 3);
        push_u32(&mut raw, max_sessions);
        assert(raw@ =~= register_service_data(name, max_sessions, is_light));
        request(2, raw)
    }

    /// The port handle that `RegisterService` returns.
    pub fn register_service_response(&self, b: &[u8]) -> (r: Result<OwnedHandle, ErrorCode>)
        requires
            b@.len() >= 48,
        ensures
            reports(r, call_failure(b@, 16, true)),
            r matches Ok(h) ==> h@ == returned_handle(b@),
    {
        handle_response(b)
    }

    /// The request of `UnregisterService` (command 3): the name of the service.
    pub fn unregister_service_request(&self, name: ServiceName) -> (r: Request)
        ensures
            request_shape(r, 3, false, Seq::empty(), Seq::empty(), name.name@),
            no_buffers(r),
    {
        let mut raw: Vec<u8> = Vec::new();
        push_bytes(&mut raw, name.name.as_slice());
        request(3, raw)
    }

    /// Whether `UnregisterService` succeeded.
    pub fn unregister_service_response(&self, b: &[u8]) -> (r: Result<(), ErrorCode>)
        requires
            b@.len() >= 40,
        ensures
            reports(r, call_failure(b@, 16, false)),
    {
        call_result(b, 16, false)
    }
}

} // verus!
