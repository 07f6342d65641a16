//! The clients of the file system service, `fsp-srv` and `fsp-ldr`: the
//! proxies that open file systems, the file systems, their files and their
//! directories.

use vstd::prelude::*;
use crate::error::ErrorCode;
use crate::handle::{OwnedHandle, RawHandle, SharedHandle};
use crate::ipc::hipc::MapAliasBufferMode;
use crate::ipc::message::{Request, zeros};
use crate::ipc::wire::{from_le_u32, from_le_u64, le_u32, le_u64, push_u32, push_u64, push_zeros, read_u32, read_u64};
use crate::ipcdef::call::{
    address_ok, call_failure, call_result, in_pointer_is, map_alias, map_alias_is, no_buffers, out_pointer,
    out_pointer_is, path_pointer, reports, request, request_shape, PATH_BUFFER_SIZE,
};
use crate::ipcdef::types::{FileQueryRangeInfo, FileTimeStampRaw, OperationId, QueryId};

verus! {

/// Options of `CreateFile`: `BigFile` is 0x1.
#[derive(Clone, Copy, PartialEq, Eq, Debug, Structural)]
pub struct CreateOption {
    pub bits: u32,
}

/// What a directory is opened for: `ReadDirs` is 0x1, `ReadFiles` 0x2 and
/// `NoFileSize` 0x8000000.
#[derive(Clone, Copy, PartialEq, Eq, Debug, Structural)]
pub struct OpenDirectoryMode {
    pub bits: u32,
}

/// What a file is opened for: `Read` is 0x1, `Write` 0x2 and `Append` 0x4.
#[derive(Clone, Copy, PartialEq, Eq, Debug, Structural)]
pub struct OpenFileMode {
    pub bits: u32,
}

/// Options of a read; none are defined.
#[derive(Clone, Copy, PartialEq, Eq, Debug, Structural)]
pub struct ReadOption {
    pub bits: u32,
}

/// Options of a write: `Flush` is 0x1.
#[derive(Clone, Copy, PartialEq, Eq, Debug, Structural)]
pub struct WriteOption {
    pub bits: u32,
}

/// The size of `CodeVerificationData`.
pub const CODE_VERIFICATION_DATA_SIZE: usize = 292;

/// The size of a `DirectoryEntry`.
pub const DIRECTORY_ENTRY_SIZE: usize = 784;

/// The request carries the `Path` at `address` as its only buffer, the in
/// pointer buffer 0.
pub open spec fn path_only(r: Request, address: usize) -> bool {
    &&& r.in_pointers@.len() == 1
    &&& in_pointer_is(r.in_pointers@[0], 0, address as nat, PATH_BUFFER_SIZE as nat)
    &&& r.in_map_aliases@.len() == 0
    &&& r.out_map_aliases@.len() == 0
    &&& r.out_pointers@.len() == 0
}

/// The request carries the two `Path`s at `first` and `second` as in pointer
/// buffers 0 and 1, and nothing else.
pub open spec fn two_paths(r: Request, first: usize, second: usize) -> bool {
    &&& r.in_pointers@.len() == 2
    &&& in_pointer_is(r.in_pointers@[0], 0, first as nat, PATH_BUFFER_SIZE as nat)
    &&& in_pointer_is(r.in_pointers@[1], 1, second as nat, PATH_BUFFER_SIZE as nat)
    &&& r.in_map_aliases@.len() == 0
    &&& r.out_map_aliases@.len() == 0
    &&& r.out_pointers@.len() == 0
}

/// Raw data of a `u32` option or id, four bytes of padding, and two 64-bit
/// values: an offset and a size.
pub open spec fn option_offset_size(option: u32, offset: i64, size: i64) -> Seq<u8> {
    le_u32(option) + zeros(4) + le_u64(offset as u64) + le_u64(size as u64)
}

/// The `i64` at `at` in the response.
pub open spec fn i64_at(b: Seq<u8>, at: int) -> i64 {
    from_le_u64(b.skip(at)) as i64
}

/// The request of command `command_id` about the `Path` at `path_address`.
fn path_request(command_id: u32, path_address: usize, raw_data: Vec<u8>) -> (r: Request)
    requires
        address_ok(path_address),
    ensures
        request_shape(r, command_id, false, Seq::empty(), Seq::empty(), raw_data@),
        path_only(r, path_address),
{
    let mut r = request(command_id, raw_data);
    r.in_pointers.push(path_pointer(0, path_address));
    r
}

/// The raw data of an option, an offset and a size.
fn option_offset_size_data(option: u32, offset: i64, size: i64) -> (r: Vec<u8>)
    ensures
        r@ == option_offset_size(option, offset, size),
{
    let mut raw: Vec<u8> = Vec::new();
    push_u32(&mut raw, option);
    push_zeros(&mut raw, 4);
    push_u64(&mut raw, offset as u64);
    push_u64(&mut raw, size as u64);
    assert(raw@ =~= option_offset_size(option, offset, size));
    raw
}

/// The raw data of one `u32`.
fn u32_data(v: u32) -> (r: Vec<u8>)
    ensures
        r@ == le_u32(v),
{
    let mut raw: Vec<u8> = Vec::new();
    push_u32(&mut raw, v);
    assert(raw@ =~= le_u32(v));
    raw
}

/// The raw data of one `u64`.
fn u64_data(v: u64) -> (r: Vec<u8>)
    ensures
        r@ == le_u64(v),
{
    let mut raw: Vec<u8> = Vec::new();
    push_u64(&mut raw, v);
    assert(raw@ =~= le_u64(v));
    raw
}

/// The handle that a command returns, when it succeeded.
fn handle_response(b: &[u8]) -> (r: Result<OwnedHandle, ErrorCode>)
    requires
        b@.len() >= 48,
    ensures
        reports(r, call_failure(b@, 16, true)),
        r matches Ok(h) ==> h@ == from_le_u32(b@.skip(12)),
{
    match call_result(b, 16, true) {
        Ok(()) => Ok(OwnedHandle::new(RawHandle(read_u32(b, 12)))),
        Err(e) => Err(e),
    }
}

/// The `i64` that a command returns as raw data, when it succeeded.
fn i64_response(b: &[u8]) -> (r: Result<i64, ErrorCode>)
    requires
        b@.len() >= 48,
    ensures
        reports(r, call_failure(b@, 16, false)),
        r matches Ok(v) ==> v == i64_at(b@, 32),
{
    match call_result(b, 16, false) {
        Ok(()) => Ok(read_u64(b, 32) as i64),
        Err(e) => Err(e),
    }
}

/// Copy `n` bytes at `at` into the front of `dst`.
fn copy_into(dst: &mut [u8], b: &[u8], at: usize, n: usize)
    requires
        n <= old(dst)@.len(),
        at + n <= b@.len(),
    ensures
        final(dst)@.len() == old(dst)@.len(),
        forall|i: int| 0 <= i < n ==> final(dst)@[i] == b@[at + i],
        forall|i: int| n <= i < old(dst)@.len() ==> final(dst)@[i] == old(dst)@[i],
{
    let len = b.len();
    let mut i: usize = 0;
    while i < n
        invariant
            i <= n,
            len == b@.len(),
            n <= dst@.len(),
            dst@.len() == old(dst)@.len(),
            at + n <= b@.len(),
            forall|j: int| 0 <= j < i ==> dst@[j] == b@[at + j],
            forall|j: int| n <= j < dst@.len() ==> dst@[j] == old(dst)@[j],
        decreases n - i,
    {
        dst[i] = b[at + i];
        i = i + 1;
    }
}

/// The times of a file as the response holds them at offset 32.
pub open spec fn time_stamp_at(t: FileTimeStampRaw, b: Seq<u8>) -> bool {
    &&& t.create == i64_at(b, 32)
    &&& t.modify == i64_at(b, 40)
    &&& t.access == i64_at(b, 48)
    &&& t.is_local_time == (b[56] != 0)
    &&& t.pad@ == b.subrange(57, 64)
}

/// The result of a range query as the response holds it at offset 32.
pub open spec fn range_info_at(info: FileQueryRangeInfo, b: Seq<u8>) -> bool {
    &&& info.aes_ctr_key_type == from_le_u32(b.skip(32))
    &&& info.speed_emulation_type == from_le_u32(b.skip(36))
    &&& info.reserved@ == b.subrange(40, 96)
}

/// A session with `fssrv::IFileSystemProxy`.
pub struct IFileSystemProxy<S> {
    pub handle: S,
}

/// A session with `fssrv::IFileSystemProxyForLoader`.
pub struct IFileSystemProxyForLoader<S> {
    pub handle: S,
}

/// A session with `fssrv::IFileSystem`.
pub struct IFileSystem<S> {
    pub handle: S,
}

/// A session with `fssrv::IFile`.
pub struct IFile<S> {
    pub handle: S,
}

/// A session with `fssrv::IDirectory`.
pub struct IDirectory<S> {
    pub handle: S,
}

impl IFileSystemProxy<OwnedHandle> {
    /// Turn the session into one whose clones share its handle.
    pub fn into_shared(self) -> (r: IFileSystemProxy<SharedHandle>)
        ensures
            r.handle@ == self.handle@,
    {
        IFileSystemProxy { handle: SharedHandle::new(self.handle.leak()) }
    }
}

impl<S> IFileSystemProxy<S> {
    pub fn new(handle: S) -> (r: Self)
        ensures
            r.handle == handle,
    {
        Self { handle }
    }

    pub fn into_inner(self) -> (r: S)
        ensures
            r == self.handle,
    {
        self.handle
    }

    /// The request of `OpenSdCardFileSystem` (command 18).
    pub fn open_sd_card_file_system_request(&self) -> (r: Request)
        ensures
            request_shape(r, 18, false, Seq::empty(), Seq::empty(), Seq::empty()),
            no_buffers(r),
    {
        request(18, Vec::new())
    }

    /// The file system that `OpenSdCardFileSystem` returns.
    pub fn open_sd_card_file_system_response(&self, b: &[u8]) -> (r: Result<IFileSystem<OwnedHandle>, ErrorCode>)
        requires
            b@.len() >= 48,
        ensures
            reports(r, call_failure(b@, 16, true)),
            r matches Ok(fs) ==> fs.handle@ == from_le_u32(b@.skip(12)),
    {
        match handle_response(b) {
            Ok(h) => Ok(IFileSystem { handle: h }),
            Err(e) => Err(e),
        }
    }
}

impl IFileSystemProxyForLoader<OwnedHandle> {
    /// Turn the session into one whose clones share its handle.
    pub fn into_shared(self) -> (r: IFileSystemProxyForLoader<SharedHandle>)
        ensures
            r.handle@ == self.handle@,
    {
        IFileSystemProxyForLoader { handle: SharedHandle::new(self.handle.leak()) }
    }
}

impl<S> IFileSystemProxyForLoader<S> {
    pub fn new(handle: S) -> (r: Self)
        ensures
            r.handle == handle,
    {
        Self { handle }
    }

    pub fn into_inner(self) -> (r: S)
        ensures
            r == self.handle,
    {
        self.handle
    }

    /// The request of `OpenCodeFileSystem` (command 0): the path and the
    /// program id, and the `CodeVerificationData` at `out_address` as the
    /// receive buffer it is written to.
    pub fn open_code_file_system_request(&self, path_address: usize, program_id: u64, out_address: usize) -> (r: Request)
        requires
            address_ok(path_address),
            address_ok(out_address),
        ensures
            request_shape(r, 0, false, Seq::empty(), Seq::empty(), le_u64(program_id)),
            r.in_pointers@.len() == 1,
            in_pointer_is(r.in_pointers@[0], 0, path_address as nat, PATH_BUFFER_SIZE as nat),
            r.in_map_aliases@.len() == 0,
            r.out_map_aliases@.len() == 0,
            r.out_pointers@.len() == 1,
            out_pointer_is(r.out_pointers@[0], out_address as nat, CODE_VERIFICATION_DATA_SIZE as nat),
    {
        let mut r = path_request(0, path_address, u64_data(program_id));
        r.out_pointers.push(out_pointer(out_address, CODE_VERIFICATION_DATA_SIZE));
        r
    }

    /// The file system that `OpenCodeFileSystem` returns; the verification
    /// data is in the buffer. Its response holds a descriptor before the
    /// CMIF header, which starts at 32.
    pub fn open_code_file_system_response(&self, b: &[u8]) -> (r: Result<IFileSystem<OwnedHandle>, ErrorCode>)
        requires
            b@.len() >= 56,
        ensures
            reports(r, call_failure(b@, 32, true)),
            r matches Ok(fs) ==> fs.handle@ == from_le_u32(b@.skip(12)),
    {
        match call_result(b, 32, true) {
            Ok(()) => Ok(IFileSystem { handle: OwnedHandle::new(RawHandle(read_u32(b, 12))) }),
            Err(e) => Err(e),
        }
    }

    /// The request of `IsArchivedProgram` (command 1): the process id.
    pub fn is_archived_program_request(&self, process_id: u64) -> (r: Request)
        ensures
            request_shape(r, 1, false, Seq::empty(), Seq::empty(), le_u64(process_id)),
            no_buffers(r),
    {
        request(1, u64_data(process_id))
    }

    /// Whether the program is archived, as `IsArchivedProgram` answers.
    pub fn is_archived_program_response(&self, b: &[u8]) -> (r: Result<bool, ErrorCode>)
        requires
            b@.len() >= 44,
        ensures
            reports(r, call_failure(b@, 16, false)),
            r matches Ok(v) ==> v == (b@[32] != 0),
    {
        match call_result(b, 16, false) {
            Ok(()) => Ok(b[32] != 0),
            Err(e) => Err(e),
        }
    }

    /// The request of `SetCurrentProcess` (command 2): it sends the process
    /// id, with eight bytes of raw data where the kernel puts it.
    pub fn set_current_process_request(&self) -> (r: Request)
        ensures
            request_shape(r, 2, true, Seq::empty(), Seq::empty(), zeros(8)),
            no_buffers(r),
    {
        let mut raw: Vec<u8> = Vec::new();
        push_zeros(&mut raw, 8);
        assert(raw@ =~= zeros(8));
        let mut r = request(2, raw);
        r.send_pid = true;
        r
    }

    /// Whether `SetCurrentProcess` succeeded.
    pub fn set_current_process_response(&self, b: &[u8]) -> (r: Result<(), ErrorCode>)
        requires
            b@.len() >= 40,
        ensures
            reports(r, call_failure(b@, 16, false)),
    {
        call_result(b, 16, false)
    }
}

impl IFileSystem<OwnedHandle> {
    /// Turn the session into one whose clones share its handle.
    pub fn into_shared(self) -> (r: IFileSystem<SharedHandle>)
        ensures
            r.handle@ == self.handle@,
    {
        IFileSystem { handle: SharedHandle::new(self.handle.leak()) }
    }
}

impl<S> IFileSystem<S> {
    pub fn new(handle: S) -> (r: Self)
        ensures
            r.handle == handle,
    {
        Self { handle }
    }

    pub fn into_inner(self) -> (r: S)
        ensures
            r == self.handle,
    {
        self.handle
    }

    /// The request of `CreateFile` (command 0): the path, the option and
    /// the size.
    pub fn create_file_request(&self, path_address: usize, size: i64, option: CreateOption) -> (r: Request)
        requires
            address_ok(path_address),
        ensures
            request_shape(r, 0, false, Seq::empty(), Seq::empty(), le_u32(option.bits) + zeros(4) + le_u64(size as u64)),
            path_only(r, path_address),
    {
        let mut raw: Vec<u8> = Vec::new();
        push_u32(&mut raw, option.bits);
        push_zeros(&mut raw, 4);
        push_u64(&mut raw, size as u64);
        assert(raw@ =~= le_u32(option.bits) + zeros(4) + le_u64(size as u64));
        path_request(0, path_address, raw)
    }

    /// Whether `CreateFile` succeeded.
    pub fn create_file_response(&self, b: &[u8]) -> (r: Result<(), ErrorCode>)
        requires
            b@.len() >= 40,
        ensures
            reports(r, call_failure(b@, 16, false)),
    {
        call_result(b, 16, false)
    }

    /// The request of `DeleteFile` (command 1): the path.
    pub fn delete_file_request(&self, path_address: usize) -> (r: Request)
        requires
            address_ok(path_address),
        ensures
            request_shape(r, 1, false, Seq::empty(), Seq::empty(), Seq::empty()),
            path_only(r, path_address),
    {
        path_request(1, path_address, Vec::new())
    }

    /// Whether `DeleteFile` succeeded.
    pub fn delete_file_response(&self, b: &[u8]) -> (r: Result<(), ErrorCode>)
        requires
            b@.len() >= 40,
        ensures
            reports(r, call_failure(b@, 16, false)),
    {
        call_result(b, 16, false)
    }

    /// The request of `CreateDirectory` (command 2): the path.
    pub fn create_directory_request(&self, path_address: usize) -> (r: Request)
        requires
            address_ok(path_address),
        ensures
            request_shape(r, 2, false, Seq::empty(), Seq::empty(), Seq::empty()),
            path_only(r, path_address),
    {
        path_request(2, path_address, Vec::new())
    }

    /// Whether `CreateDirectory` succeeded.
    pub fn create_directory_response(&self, b: &[u8]) -> (r: Result<(), ErrorCode>)
        requires
            b@.len() >= 40,
        ensures
            reports(r, call_failure(b@, 16, false)),
    {
        call_result(b, 16, false)
    }

    /// The request of `DeleteDirectory` (command 3): the path.
    pub fn delete_directory_request(&self, path_address: usize) -> (r: Request)
        requires
            address_ok(path_address),
        ensures
            request_shape(r, 3, false, Seq::empty(), Seq::empty(), Seq::empty()),
            path_only(r, path_address),
    {
        path_request(3, path_address, Vec::new())
    }

    /// Whether `DeleteDirectory` succeeded.
    pub fn delete_directory_response(&self, b: &[u8]) -> (r: Result<(), ErrorCode>)
        requires
            b@.len() >= 40,
        ensures
            reports(r, call_failure(b@, 16, false)),
    {
        call_result(b, 16, false)
    }

    /// The request of `DeleteDirectoryRecursively` (command 4): the path.
    pub fn delete_directory_recursively_request(&self, path_address: usize) -> (r: Request)
        requires
            address_ok(path_address),
        ensures
            request_shape(r, 4, false, Seq::empty(), Seq::empty(), Seq::empty()),
            path_only(r, path_address),
    {
        path_request(4, path_address, Vec::new())
    }

    /// Whether `DeleteDirectoryRecursively` succeeded.
    pub fn delete_directory_recursively_response(&self, b: &[u8]) -> (r: Result<(), ErrorCode>)
        requires
            b@.len() >= 40,
        ensures
            reports(r, call_failure(b@, 16, false)),
    {
        call_result(b, 16, false)
    }

    /// The request of `RenameFile` (command 5): the old and the new path.
    pub fn rename_file_request(&self, old_path_address: usize, new_path_address: usize) -> (r: Request)
        requires
            address_ok(old_path_address),
            address_ok(new_path_address),
        ensures
            request_shape(r, 5, false, Seq::empty(), Seq::empty(), Seq::empty()),
            two_paths(r, old_path_address, new_path_address),
    {
        let mut r = path_request(5, old_path_address, Vec::new());
        r.in_pointers.push(path_pointer(1, new_path_address));
        r
    }

    /// Whether `RenameFile` succeeded.
    pub fn rename_file_response(&self, b: &[u8]) -> (r: Result<(), ErrorCode>)
        requires
            b@.len() >= 40,
        ensures
            reports(r, call_failure(b@, 16, false)),
    {
        call_result(b, 16, false)
    }

    /// The request of `RenameDirectory` (command 6): the old and the new path.
    pub fn rename_directory_request(&self, old_path_address: usize, new_path_address: usize) -> (r: Request)
        requires
            address_ok(old_path_address),
            address_ok(new_path_address),
        ensures
            request_shape(r, 6, false, Seq::empty(), Seq::empty(), Seq::empty()),
            two_paths(r, old_path_address, new_path_address),
    {
        let mut r = path_request(6, old_path_address, Vec::new());
        r.in_pointers.push(path_pointer(1, new_path_address));
        r
    }

    /// Whether `RenameDirectory` succeeded.
    pub fn rename_directory_response(&self, b: &[u8]) -> (r: Result<(), ErrorCode>)
        requires
            b@.len() >= 40,
        ensures
            reports(r, call_failure(b@, 16, false)),
    {
        call_result(b, 16, false)
    }

    /// The request of `GetEntryType` (command 7): the path.
    pub fn get_entry_type_request(&self, path_address: usize) -> (r: Request)
        requires
            address_ok(path_address),
        ensures
            request_shape(r, 7, false, Seq::empty(), Seq::empty(), Seq::empty()),
            path_only(r, path_address),
    {
        path_request(7, path_address, Vec::new())
    }

    /// The type of the entry, as `GetEntryType` answers.
    pub fn get_entry_type_response(&self, b: &[u8]) -> (r: Result<u32, ErrorCode>)
        requires
            b@.len() >= 44,
        ensures
            reports(r, call_failure(b@, 16, false)),
            r matches Ok(v) ==> v == from_le_u32(b@.skip(32)),
    {
        match call_result(b, 16, false) {
            Ok(()) => Ok(read_u32(b, 32)),
            Err(e) => Err(e),
        }
    }

    /// The request of `OpenFile` (command 8): the path and the mode.
    pub fn open_file_request(&self, path_address: usize, mode: OpenFileMode) -> (r: Request)
        requires
            address_ok(path_address),
        ensures
            request_shape(r, 8, false, Seq::empty(), Seq::empty(), le_u32(mode.bits)),
            path_only(r, path_address),
    {
        path_request(8, path_address, u32_data(mode.bits))
    }

    /// The file that `OpenFile` returns.
    pub fn open_file_response(&self, b: &[u8]) -> (r: Result<IFile<OwnedHandle>, ErrorCode>)
        requires
            b@.len() >= 48,
        ensures
            reports(r, call_failure(b@, 16, true)),
            r matches Ok(f) ==> f.handle@ == from_le_u32(b@.skip(12)),
    {
        match handle_response(b) {
            Ok(h) => Ok(IFile { handle: h }),
            Err(e) => Err(e),
        }
    }

    /// The request of `OpenDirectory` (command 9): the path and the mode.
    pub fn open_directory_request(&self, path_address: usize, mode: OpenDirectoryMode) -> (r: Request)
        requires
            address_ok(path_address),
        ensures
            request_shape(r, 9, false, Seq::empty(), Seq::empty(), le_u32(mode.bits)),
            path_only(r, path_address),
    {
        path_request(9, path_address, u32_data(mode.bits))
    }

    /// The directory that `OpenDirectory` returns.
    pub fn open_directory_response(&self, b: &[u8]) -> (r: Result<IDirectory<OwnedHandle>, ErrorCode>)
        requires
            b@.len() >= 48,
        ensures
            reports(r, call_failure(b@, 16, true)),
            r matches Ok(d) ==> d.handle@ == from_le_u32(b@.skip(12)),
    {
        match handle_response(b) {
            Ok(h) => Ok(IDirectory { handle: h }),
            Err(e) => Err(e),
        }
    }

    /// The request of `Commit` (command 10).
    pub fn commit_request(&self) -> (r: Request)
        ensures
            request_shape(r, 10, false, Seq::empty(), Seq::empty(), Seq::empty()),
            no_buffers(r),
    {
        request(10, Vec::new())
    }

    /// Whether `Commit` succeeded.
    pub fn commit_response(&self, b: &[u8]) -> (r: Result<(), ErrorCode>)
        requires
            b@.len() >= 40,
        ensures
            reports(r, call_failure(b@, 16, false)),
    {
        call_result(b, 16, false)
    }

    /// The request of `GetFreeSpaceSize` (command 11): the path.
    pub fn get_free_space_size_request(&self, path_address: usize) -> (r: Request)
        requires
            address_ok(path_address),
        ensures
            request_shape(r, 11, false, Seq::empty(), Seq::empty(), Seq::empty()),
            path_only(r, path_address),
    {
        path_request(11, path_address, Vec::new())
    }

    /// The free space, as `GetFreeSpaceSize` answers.
    pub fn get_free_space_size_response(&self, b: &[u8]) -> (r: Result<i64, ErrorCode>)
        requires
            b@.len() >= 48,
        ensures
            reports(r, call_failure(b@, 16, false)),
            r matches Ok(v) ==> v == i64_at(b@, 32),
    {
        i64_response(b)
    }

    /// The request of `GetTotalSpaceSize` (command 12): the path.
    pub fn get_total_space_size_request(&self, path_address: usize) -> (r: Request)
        requires
            address_ok(path_address),
        ensures
            request_shape(r, 12, false, Seq::empty(), Seq::empty(), Seq::empty()),
            path_only(r, path_address),
    {
        path_request(12, path_address, Vec::new())
    }

    /// The total space, as `GetTotalSpaceSize` answers.
    pub fn get_total_space_size_response(&self, b: &[u8]) -> (r: Result<i64, ErrorCode>)
        requires
            b@.len() >= 48,
        ensures
            reports(r, call_failure(b@, 16, false)),
            r matches Ok(v) ==> v == i64_at(b@, 32),
    {
        i64_response(b)
    }

    /// The request of `CleanDirectoryRecursively` (command 13): the path.
    pub fn clean_directory_recursively_request(&self, path_address: usize) -> (r: Request)
        requires
            address_ok(path_address),
        ensures
            request_shape(r, 13, false, Seq::empty(), Seq::empty(), Seq::empty()),
            path_only(r, path_address),
    {
        path_request(13, path_address, Vec::new())
    }

    /// Whether `CleanDirectoryRecursively` succeeded.
    pub fn clean_directory_recursively_response(&self, b: &[u8]) -> (r: Result<(), ErrorCode>)
        requires
            b@.len() >= 40,
        ensures
            reports(r, call_failure(b@, 16, false)),
    {
        call_result(b, 16, false)
    }

    /// The request of `GetFileTimeStampRaw` (command 14): the path.
    pub fn get_file_time_stamp_raw_request(&self, path_address: usize) -> (r: Request)
        requires
            address_ok(path_address),
        ensures
            request_shape(r, 14, false, Seq::empty(), Seq::empty(), Seq::empty()),
            path_only(r, path_address),
    {
        path_request(14, path_address, Vec::new())
    }

    /// The times of the file, as `GetFileTimeStampRaw` answers.
    pub fn get_file_time_stamp_raw_response(&self, b: &[u8]) -> (r: Result<FileTimeStampRaw, ErrorCode>)
        requires
            b@.len() >= 72,
        ensures
            reports(r, call_failure(b@, 16, false)),
            r matches Ok(t) ==> time_stamp_at(t, b@),
    {
        match call_result(b, 16, false) {
            Ok(()) => {
                let mut pad = [0u8; 7];
                copy_into(&mut pad, b, 57, 7);
                let t = FileTimeStampRaw {
                    create: read_u64(b, 32) as i64,
                    modify: read_u64(b, 40) as i64,
                    access: read_u64(b, 48) as i64,
                    is_local_time: b[56] != 0,
                    pad,
                };
                assert(t.pad@ =~= b@.subrange(57, 64));
                Ok(t)
            },
            Err(e) => Err(e),
        }
    }

    /// The request of `QueryEntry` (command 15): the path, the input buffer
    /// and the output buffer, both mapped non-secure, and the query id.
    pub fn query_entry_request(
        &self,
        out_address: usize,
        out_size: usize,
        in_address: usize,
        in_size: usize,
        query_id: QueryId,
        path_address: usize,
    ) -> (r: Request)
        requires
            address_ok(out_address),
            address_ok(in_address),
            address_ok(path_address),
            out_size as u64 >> 36u64 == 0,
            in_size as u64 >> 36u64 == 0,
        ensures
            request_shape(r, 15, false, Seq::empty(), Seq::empty(), le_u32(query_id.value_spec())),
            r.in_pointers@.len() == 1,
            in_pointer_is(r.in_pointers@[0], 0, path_address as nat, PATH_BUFFER_SIZE as nat),
            r.in_map_aliases@.len() == 1,
            map_alias_is(r.in_map_aliases@[0], MapAliasBufferMode::NonSecure, in_address as nat, in_size as nat),
            r.out_map_aliases@.len() == 1,
            map_alias_is(r.out_map_aliases@[0], MapAliasBufferMode::NonSecure, out_address as nat, out_size as nat),
            r.out_pointers@.len() == 0,
    {
        let mut r = path_request(15, path_address, u32_data(query_id.to_u32()));
        r.in_map_aliases.push(map_alias(MapAliasBufferMode::NonSecure, in_address, in_size));
        r.out_map_aliases.push(map_alias(MapAliasBufferMode::NonSecure, out_address, out_size));
        r
    }

    /// Whether `QueryEntry` succeeded; its answer is in the output buffer.
    pub fn query_entry_response(&self, b: &[u8]) -> (r: Result<(), ErrorCode>)
        requires
            b@.len() >= 40,
        ensures
            reports(r, call_failure(b@, 16, false)),
    {
        call_result(b, 16, false)
    }
}

impl IFile<OwnedHandle> {
    /// Turn the session into one whose clones share its handle.
    pub fn into_shared(self) -> (r: IFile<SharedHandle>)
        ensures
            r.handle@ == self.handle@,
    {
        IFile { handle: SharedHandle::new(self.handle.leak()) }
    }
}

impl<S> IFile<S> {
    pub fn new(handle: S) -> (r: Self)
        ensures
            r.handle == handle,
    {
        Self { handle }
    }

    pub fn into_inner(self) -> (r: S)
        ensures
            r == self.handle,
    {
        self.handle
    }

    /// The request of `Read` (command 0): the buffer at `address` with
    /// `buffer_size` bytes mapped non-secure for the data, and the option,
    /// the offset and the size to read.
    pub fn read_request(&self, offset: i64, address: usize, buffer_size: usize, size: i64, option: ReadOption) -> (r: Request)
        requires
            address_ok(address),
            buffer_size as u64 >> 36u64 == 0,
        ensures
            request_shape(r, 0, false, Seq::empty(), Seq::empty(), option_offset_size(option.bits, offset, size)),
            r.in_pointers@.len() == 0,
            r.in_map_aliases@.len() == 0,
            r.out_map_aliases@.len() == 1,
            map_alias_is(r.out_map_aliases@[0], MapAliasBufferMode::NonSecure, address as nat, buffer_size as nat),
            r.out_pointers@.len() == 0,
    {
        let mut r = request(0, option_offset_size_data(option.bits, offset, size));
        r.out_map_aliases.push(map_alias(MapAliasBufferMode::NonSecure, address, buffer_size));
        r
    }

    /// How many bytes `Read` read.
    pub fn read_response(&self, b: &[u8]) -> (r: Result<i64, ErrorCode>)
        requires
            b@.len() >= 48,
        ensures
            reports(r, call_failure(b@, 16, false)),
            r matches Ok(v) ==> v == i64_at(b@, 32),
    {
        i64_response(b)
    }

    /// The request of `Write` (command 1): the buffer at `address` with
    /// `buffer_size` bytes mapped non-secure for the data, and the option,
    /// the offset and the size to write.
    pub fn write_request(&self, offset: i64, address: usize, buffer_size: usize, size: i64, option: WriteOption) -> (r: Request)
        requires
            address_ok(address),
            buffer_size as u64 >> 36u64 == 0,
        ensures
            request_shape(r, 1, false, Seq::empty(), Seq::empty(), option_offset_size(option.bits, offset, size)),
            r.in_pointers@.len() == 0,
            r.in_map_aliases@.len() == 1,
            map_alias_is(r.in_map_aliases@[0], MapAliasBufferMode::NonSecure, address as nat, buffer_size as nat),
            r.out_map_aliases@.len() == 0,
            r.out_pointers@.len() == 0,
    {
        let mut r = request(1, option_offset_size_data(option.bits, offset, size));
        r.in_map_aliases.push(map_alias(MapAliasBufferMode::NonSecure, address, buffer_size));
        r
    }

    /// Whether `Write` succeeded.
    pub fn write_response(&self, b: &[u8]) -> (r: Result<(), ErrorCode>)
        requires
            b@.len() >= 40,
        ensures
            reports(r, call_failure(b@, 16, false)),
    {
        call_result(b, 16, false)
    }

    /// The request of `Flush` (command 2).
    pub fn flush_request(&self) -> (r: Request)
        ensures
            request_shape(r, 2, false, Seq::empty(), Seq::empty(), Seq::empty()),
            no_buffers(r),
    {
        request(2, Vec::new())
    }

    /// Whether `Flush` succeeded.
    pub fn flush_response(&self, b: &[u8]) -> (r: Result<(), ErrorCode>)
        requires
            b@.len() >= 40,
        ensures
            reports(r, call_failure(b@, 16, false)),
    {
        call_result(b, 16, false)
    }

    /// The request of `SetSize` (command 3): the new size.
    pub fn set_size_request(&self, size: i64) -> (r: Request)
        ensures
            request_shape(r, 3, false, Seq::empty(), Seq::empty(), le_u64(size as u64)),
            no_buffers(r),
    {
        request(3, u64_data(size as u64))
    }

    /// Whether `SetSize` succeeded.
    pub fn set_size_response(&self, b: &[u8]) -> (r: Result<(), ErrorCode>)
        requires
            b@.len() >= 40,
        ensures
            reports(r, call_failure(b@, 16, false)),
    {
        call_result(b, 16, false)
    }

    /// The request of `GetSize` (command 4).
    pub fn get_size_request(&self) -> (r: Request)
        ensures
            request_shape(r, 4, false, Seq::empty(), Seq::empty(), Seq::empty()),
            no_buffers(r),
    {
        request(4, Vec::new())
    }

    /// The size of the file, as `GetSize` answers.
    pub fn get_size_response(&self, b: &[u8]) -> (r: Result<i64, ErrorCode>)
        requires
            b@.len() >= 48,
        ensures
            reports(r, call_failure(b@, 16, false)),
            r matches Ok(v) ==> v == i64_at(b@, 32),
    {
        i64_response(b)
    }

    /// The request of `OperateRange` (command 5): the operation, the offset
    /// and the size of the range.
    pub fn operate_range_request(&self, op_id: OperationId, offset: i64, size: i64) -> (r: Request)
        ensures
            request_shape(r, 5, false, Seq::empty(), Seq::empty(), option_offset_size(op_id.value_spec(), offset, size)),
            no_buffers(r),
    {
        request(5, option_offset_size_data(op_id.to_u32(), offset, size))
    }

    /// What `OperateRange` reports.
    pub fn operate_range_response(&self, b: &[u8]) -> (r: Result<FileQueryRangeInfo, ErrorCode>)
        requires
            b@.len() >= 104,
        ensures
            reports(r, call_failure(b@, 16, false)),
            r matches Ok(info) ==> range_info_at(info, b@),
    {
        match call_result(b, 16, false) {
            Ok(()) => {
                let mut reserved = [0u8; 56];
                copy_into(&mut reserved, b, 40, 56);
                let info = FileQueryRangeInfo {
                    aes_ctr_key_type: read_u32(b, 32),
                    speed_emulation_type: read_u32(b, 36),
                    reserved,
                };
                assert(info.reserved@ =~= b@.subrange(40, 96));
                Ok(info)
            },
            Err(e) => Err(e),
        }
    }

    /// The request of `OperateRangeWithBuffer` (command 6): the input and the
    /// output buffer, both mapped non-secure, and the operation, the offset
    /// and the size of the range.
    pub fn operate_range_with_buffer_request(
        &self,
        out_address: usize,
        out_size: usize,
        in_address: usize,
        in_size: usize,
        op_id: OperationId,
        offset: i64,
        size: i64,
    ) -> (r: Request)
        requires
            address_ok(out_address),
            address_ok(in_address),
            out_size as u64 >> 36u64 == 0,
            in_size as u64 >> 36u64 == 0,
        ensures
            request_shape(r, 6, false, Seq::empty(), Seq::empty(), option_offset_size(op_id.value_spec(), offset, size)),
            r.in_pointers@.len() == 0,
            r.in_map_aliases@.len() == 1,
            map_alias_is(r.in_map_aliases@[0], MapAliasBufferMode::NonSecure, in_address as nat, in_size as nat),
            r.out_map_aliases@.len() == 1,
            map_alias_is(r.out_map_aliases@[0], MapAliasBufferMode::NonSecure, out_address as nat, out_size as nat),
            r.out_pointers@.len() == 0,
    {
        let mut r = request(6, option_offset_size_data(op_id.to_u32(), offset, size));
        r.in_map_aliases.push(map_alias(MapAliasBufferMode::NonSecure, in_address, in_size));
        r.out_map_aliases.push(map_alias(MapAliasBufferMode::NonSecure, out_address, out_size));
        r
    }

    /// Whether `OperateRangeWithBuffer` succeeded.
    pub fn operate_range_with_buffer_response(&self, b: &[u8]) -> (r: Result<(), ErrorCode>)
        requires
            b@.len() >= 40,
        ensures
            reports(r, call_failure(b@, 16, false)),
    {
        call_result(b, 16, false)
    }
}

impl IDirectory<OwnedHandle> {
    /// Turn the session into one whose clones share its handle.
    pub fn into_shared(self) -> (r: IDirectory<SharedHandle>)
        ensures
            r.handle@ == self.handle@,
    {
        IDirectory { handle: SharedHandle::new(self.handle.leak()) }
    }
}

impl<S> IDirectory<S> {
    pub fn new(handle: S) -> (r: Self)
        ensures
            r.handle == handle,
    {
        Self { handle }
    }

    pub fn into_inner(self) -> (r: S)
        ensures
            r == self.handle,
    {
        self.handle
    }

    /// The request of `Read` (command 0): the array of `count` entries at
    /// `address`, mapped as an out buffer.
    pub fn read_request(&self, address: usize, count: usize) -> (r: Request)
        requires
            address_ok(address),
            count * DIRECTORY_ENTRY_SIZE < 0x10_0000_0000,
            count * DIRECTORY_ENTRY_SIZE <= usize::MAX,
        ensures
            request_shape(r, 0, false, Seq::empty(), Seq::empty(), Seq::empty()),
            r.in_pointers@.len() == 0,
            r.in_map_aliases@.len() == 0,
            r.out_map_aliases@.len() == 1,
            map_alias_is(
                r.out_map_aliases@[0],
                MapAliasBufferMode::Normal,
                address as nat,
                (count * DIRECTORY_ENTRY_SIZE) as nat,
            ),
            r.out_pointers@.len() == 0,
    {
        let size = count * DIRECTORY_ENTRY_SIZE;
        proof {
            assert(size as u64 >> 36u64 == 0) by (bit_vector)
                requires
                    (size as u64) < 0x10_0000_0000u64,
            ;
        }
        let mut r = request(0, Vec::new());
        r.out_map_aliases.push(map_alias(MapAliasBufferMode::Normal, address, size));
        r
    }

    /// How many entries `Read` wrote.
    pub fn read_response(&self, b: &[u8]) -> (r: Result<i64, ErrorCode>)
        requires
            b@.len() >= 48,
        ensures
            reports(r, call_failure(b@, 16, false)),
            r matches Ok(v) ==> v == i64_at(b@, 32),
    {
        i64_response(b)
    }

    /// The request of `GetEntryCount` (command 1).
    pub fn get_entry_count_request(&self) -> (r: Request)
        ensures
            request_shape(r, 1, false, Seq::empty(), Seq::empty(), Seq::empty()),
            no_buffers(r),
    {
        request(1, Vec::new())
    }

    /// The number of entries, as `GetEntryCount` answers.
    pub fn get_entry_count_response(&self, b: &[u8]) -> (r: Result<i64, ErrorCode>)
        requires
            b@.len() >= 48,
        ensures
            reports(r, call_failure(b@, 16, false)),
            r matches Ok(v) ==> v == i64_at(b@, 32),
    {
        i64_response(b)
    }
}

} // verus!
