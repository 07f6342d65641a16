//! What the clients of the services share: the request of a command, its
//! buffers, and how a response in the IPC buffer says whether the command
//! succeeded.
//!
//! A command is a request that the client writes into its IPC buffer, a
//! system call that the kernel answers by writing the response into that same
//! buffer, and a reading of the response. The clients here build the request
//! and read the response; the call itself is left to whoever holds the
//! session.

use vstd::prelude::*;
use crate::error::ErrorCode;
use crate::ipc::hipc::{
    CommandType, HipcInPointerBufferDescriptor, HipcMapAliasBufferDescriptor, HipcOutPointerBufferDescriptor,
    MapAliasBufferMode,
};
use crate::ipc::message::Request;
use crate::ipc::wire::{from_le_u32, read_u32};

verus! {

/// The size of a `Path`, the fixed-size buffer that carries a path.
pub const PATH_BUFFER_SIZE: usize = 769;

/// The request of command `command_id` with these handles and this raw data,
/// and no buffers; no process id is sent unless `send_pid`.
pub open spec fn request_shape(
    r: Request,
    command_id: u32,
    send_pid: bool,
    copy_handles: Seq<u32>,
    move_handles: Seq<u32>,
    raw_data: Seq<u8>,
) -> bool {
    &&& r.command_type == CommandType::Request
    &&& r.command_id == command_id
    &&& r.send_pid == send_pid
    &&& r.copy_handles@ == copy_handles
    &&& r.move_handles@ == move_handles
    &&& r.inout_map_aliases@.len() == 0
    &&& r.raw_data@ == raw_data
}

/// The request carries no buffer of any kind.
pub open spec fn no_buffers(r: Request) -> bool {
    &&& r.in_pointers@.len() == 0
    &&& r.in_map_aliases@.len() == 0
    &&& r.out_map_aliases@.len() == 0
    &&& r.out_pointers@.len() == 0
}

/// An in pointer descriptor of the buffer at `address` with `size` bytes.
pub open spec fn in_pointer_is(d: HipcInPointerBufferDescriptor, index: nat, address: nat, size: nat) -> bool {
    &&& d.index_spec() == index
    &&& d.address_spec() == address
    &&& d.size_spec() == size
}

/// A map alias descriptor of the buffer at `address` with `size` bytes.
pub open spec fn map_alias_is(d: HipcMapAliasBufferDescriptor, mode: MapAliasBufferMode, address: nat, size: nat) -> bool {
    &&& d.mode_spec() == mode.value_spec()
    &&& d.address_spec() == address
    &&& d.size_spec() == size
}

/// An out pointer descriptor of the buffer at `address` with `size` bytes.
pub open spec fn out_pointer_is(d: HipcOutPointerBufferDescriptor, address: nat, size: nat) -> bool {
    &&& d.address_spec() == address
    &&& d.size_spec() == size
}

/// An address that a buffer descriptor can hold: 39 bits.
pub open spec fn address_ok(address: usize) -> bool {
    address as u64 >> 39u64 == 0
}

/// The request of command `command_id` with this raw data and nothing else.
pub fn request(command_id: u32, raw_data: Vec<u8>) -> (r: Request)
    ensures
        request_shape(r, command_id, false, Seq::empty(), Seq::empty(), raw_data@),
        no_buffers(r),
{
    Request {
        command_type: CommandType::Request,
        send_pid: false,
        copy_handles: Vec::new(),
        move_handles: Vec::new(),
        in_pointers: Vec::new(),
        in_map_aliases: Vec::new(),
        out_map_aliases: Vec::new(),
        inout_map_aliases: Vec::new(),
        out_pointers: Vec::new(),
        command_id,
        raw_data,
    }
}

/// Describe the `Path` at `address` as the in pointer buffer `index`.
pub fn path_pointer(index: usize, address: usize) -> (r: HipcInPointerBufferDescriptor)
    requires
        index < 64,
        address_ok(address),
    ensures
        in_pointer_is(r, index as nat, address as nat, PATH_BUFFER_SIZE as nat),
{
    proof {
        assert(index >> 6usize == 0) by (bit_vector)
            requires
                index < 64,
        ;
        assert(769usize >> 16usize == 0) by (bit_vector);
    }
    HipcInPointerBufferDescriptor::new(index, address, PATH_BUFFER_SIZE)
}

/// Describe the buffer at `address` with `size` bytes as a map alias buffer.
pub fn map_alias(mode: MapAliasBufferMode, address: usize, size: usize) -> (r: HipcMapAliasBufferDescriptor)
    requires
        address_ok(address),
        size as u64 >> 36u64 == 0,
    ensures
        map_alias_is(r, mode, address as nat, size as nat),
{
    HipcMapAliasBufferDescriptor::new(mode, address, size)
}

/// Whether the HIPC header of the response in `b` says that a special header
/// follows it.
pub open spec fn has_special_header(b: Seq<u8>) -> bool {
    (from_le_u32(b.skip(4)) >> 31u32) & 1 == 1
}

/// The code that makes a call fail, read from the response in `b` whose CMIF
/// header is at `cmif_at`: the result of the CMIF header when it is not
/// success; and when the command returns handles but the response has no
/// special header, the word at offset 24, whatever it is, since the kernel
/// then reports an error in place of the response.
pub open spec fn call_failure(b: Seq<u8>, cmif_at: int, returns_handles: bool) -> Option<u32> {
    if returns_handles && !has_special_header(b) {
        Some(from_le_u32(b.skip(24)))
    } else if from_le_u32(b.skip(cmif_at + 8)) != 0 {
        Some(from_le_u32(b.skip(cmif_at + 8)))
    } else {
        None
    }
}

/// A result that is the failure `failure`, or success when there is none.
pub open spec fn reports<T>(r: Result<T, ErrorCode>, failure: Option<u32>) -> bool {
    match failure {
        Some(c) => (r matches Err(e) && e@ == c),
        None => r is Ok,
    }
}

/// Whether the call whose response is in `b` succeeded, and with which code
/// it failed if not.
pub fn call_result(b: &[u8], cmif_at: usize, returns_handles: bool) -> (r: Result<(), ErrorCode>)
    requires
        28 <= b@.len(),
        cmif_at + 16 <= b@.len(),
    ensures
        reports(r, call_failure(b@, cmif_at as int, returns_handles)),
{
    let len = b.len();
    if returns_handles {
        let word1 = read_u32(b, 4);
        if (word1 >> 31u32) & 1 != 1 {
            return Err(ErrorCode::from_raw(read_u32(b, 24)));
        }
    }
    let result = ErrorCode::from_raw(read_u32(b, cmif_at + 8));
    if result.is_failure() {
        return Err(result);
    }
    Ok(())
}

/// Describe the buffer at `address` with `size` bytes as an entry of the
/// receive list.
pub fn out_pointer(address: usize, size: usize) -> (r: HipcOutPointerBufferDescriptor)
    requires
        address_ok(address),
        size < 0x10000,
    ensures
        out_pointer_is(r, address as nat, size as nat),
{
    proof {
        assert(size >> 16usize == 0) by (bit_vector)
            requires
                size < 0x10000,
        ;
    }
    HipcOutPointerBufferDescriptor::new(address, size)
}

} // verus!
