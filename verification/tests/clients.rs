use horizon::handle::RawHandle;
use horizon::ipcdef::fssrv::{
    CreateOption, IDirectory, IFile, IFileSystem, IFileSystemProxy, IFileSystemProxyForLoader, OpenFileMode, ReadOption,
    WriteOption,
};
use horizon::ipcdef::ldr::IProcessManagerInterface;
use horizon::ipcdef::path::ServiceName;
use horizon::ipcdef::sm::IUserInterface;
use horizon::ipcdef::spl::IRandomInterface;
use horizon::ipcdef::types::{OperationId, PinId, ProgramLocation, QueryId, StorageId};

fn ok<T>(r: Result<T, horizon::error::ErrorCode>) -> T {
    match r {
        Ok(v) => v,
        Err(e) => panic!("the call failed with {:#x}", e.repr()),
    }
}

fn err<T>(r: Result<T, horizon::error::ErrorCode>) -> u32 {
    match r {
        Ok(_) => panic!("the call should have failed"),
        Err(e) => e.repr(),
    }
}

fn words(b: &[u8]) -> Vec<u32> {
    b.chunks(4).map(|c| u32::from_le_bytes([c[0], c[1], c[2], c[3]])).collect()
}

fn put(buf: &mut [u8], at: usize, v: u32) {
    buf[at..at + 4].copy_from_slice(&v.to_le_bytes());
}

/// A response buffer: a header with or without special header, a CMIF
/// header at `cmif_at` with `result`.
fn response(special: bool, cmif_at: usize, result: u32) -> Vec<u8> {
    let mut b = vec![0u8; 0x100];
    put(&mut b, 4, if special { 1 << 31 } else { 0 });
    put(&mut b, cmif_at, 0x4F434653);
    put(&mut b, cmif_at + 8, result);
    b
}

#[test]
fn sm_initialize_request_layout() {
    let sm = IUserInterface::new(0u32);
    let bytes = sm.initialize_request().to_bytes();
    assert_eq!(bytes.len(), 60);
    let w = words(&bytes);
    assert_eq!(w[0], 4);
    assert_eq!(w[1], 10 | (1 << 31));
    assert_eq!(w[2], 1);
    assert_eq!(&w[3..8], &[0, 0, 0, 0, 0]);
    assert_eq!(&w[8..12], &[0x49434653, 1, 0, 0]);
    assert_eq!(&w[12..15], &[0, 0, 0]);
}

#[test]
fn sm_get_service_request_and_response() {
    let sm = IUserInterface::new(0u32);
    let name = ServiceName::try_new("fsp-srv").unwrap();
    let bytes = sm.get_service_request(name).to_bytes();
    assert_eq!(bytes.len(), 48);
    assert_eq!(words(&bytes[0..8]), vec![4, 10]);
    assert_eq!(words(&bytes[16..32]), vec![0x49434653, 1, 1, 0]);
    assert_eq!(&bytes[32..40], b"fsp-srv\0");

    let mut good = response(true, 16, 0);
    put(&mut good, 8, 1 << 5);
    put(&mut good, 12, 0xabcd);
    assert_eq!(ok(sm.get_service_response(&good)).leak(), RawHandle(0xabcd));

    let failed = response(true, 16, 0xe415);
    assert_eq!(err(sm.get_service_response(&failed)), 0xe415);

    let mut no_special = response(false, 16, 0);
    put(&mut no_special, 24, 0x1015);
    assert_eq!(err(sm.get_service_response(&no_special)), 0x1015);
}

#[test]
fn sm_register_service_raw_data() {
    let sm = IUserInterface::new(0u32);
    let name = ServiceName::try_new("test").unwrap();
    let bytes = sm.register_service_request(name, 0x20, true).to_bytes();
    assert_eq!(bytes.len(), 56);
    assert_eq!(words(&bytes[0..8]), vec![4, 12]);
    assert_eq!(&bytes[32..40], b"test\0\0\0\0");
    assert_eq!(&bytes[40..44], &[1, 0, 0, 0]);
    assert_eq!(words(&bytes[44..48]), vec![0x20]);
    assert!(sm.unregister_service_response(&response(false, 16, 0)).is_ok());
}

#[test]
fn spl_random_bytes_maps_the_buffer() {
    let spl = IRandomInterface::new(0u32);
    let bytes = spl.generate_random_bytes_request(0x1234_5000, 0x40).to_bytes();
    assert_eq!(bytes.len(), 52);
    assert_eq!(words(&bytes[0..8]), vec![4 | (1 << 24), 8]);
    assert_eq!(words(&bytes[8..20]), vec![0x40, 0x1234_5000, 0]);
    assert_eq!(words(&bytes[32..48]), vec![0x49434653, 1, 0, 0]);
}

#[test]
fn ldr_create_process_copies_the_handle() {
    let ldr = IProcessManagerInterface::new(0u32);
    let bytes = ldr.create_process_request(PinId { value: 0x1122334455667788 }, 3, RawHandle(0x77)).to_bytes();
    assert_eq!(bytes.len(), 64);
    let w = words(&bytes);
    assert_eq!(w[0], 4);
    assert_eq!(w[1], 12 | (1 << 31));
    assert_eq!(w[2], 1 << 1);
    assert_eq!(w[3], 0x77);
    assert_eq!(&w[4..8], &[0x49434653, 1, 0, 0]);
    assert_eq!(&w[8..12], &[3, 0, 0x55667788, 0x11223344]);
}

#[test]
fn ldr_pin_program_reads_the_pin_id() {
    let ldr = IProcessManagerInterface::new(0u32);
    let loc = ProgramLocation { program_id: 0x0100000000001000, storage_id: StorageId::BuiltInSystem, _padding_0: [0; 7] };
    let bytes = ldr.pin_program_request(loc).to_bytes();
    assert_eq!(bytes.len(), 56);
    assert_eq!(words(&bytes[32..40]), vec![0x00001000, 0x01000000]);
    assert_eq!(bytes[40], 3);
    let mut good = response(false, 16, 0);
    put(&mut good, 32, 9);
    put(&mut good, 36, 1);
    assert_eq!(ok(ldr.pin_program_response(&good)).value, 0x1_0000_0009);
    assert_eq!(err(ldr.pin_program_response(&response(false, 16, 0x2e09))), 0x2e09);
}

#[test]
fn fs_code_file_system_layout() {
    let fs = IFileSystemProxyForLoader::new(0u32);
    let bytes = fs.open_code_file_system_request(0x8000, 0x0100000000000809, 0x9000).to_bytes();
    assert_eq!(bytes.len(), 64);
    let w = words(&bytes);
    assert_eq!(w[0], 4 | (1 << 16));
    assert_eq!(w[1], 10 | (3 << 10));
    assert_eq!(w[2], 769 << 16);
    assert_eq!(w[3], 0x8000);
    assert_eq!(&w[4..8], &[0x49434653, 1, 0, 0]);
    assert_eq!(&w[8..10], &[0x00000809, 0x01000000]);
    assert_eq!(&w[14..16], &[0x9000, 292 << 16]);

    let mut good = response(true, 32, 0);
    put(&mut good, 12, 0x55);
    assert_eq!(ok(fs.open_code_file_system_response(&good)).handle.leak(), RawHandle(0x55));
}

#[test]
fn file_read_layout_and_result() {
    let file = IFile::new(0u32);
    let bytes = file.read_request(0x10, 0x4000, 0x200, 0x200, ReadOption { bits: 0 }).to_bytes();
    assert_eq!(bytes.len(), 76);
    let w = words(&bytes);
    assert_eq!(w[0], 4 | (1 << 24));
    assert_eq!(w[1], 14);
    assert_eq!(&w[2..5], &[0x200, 0x4000, 1]);
    assert_eq!(&w[8..12], &[0x49434653, 1, 0, 0]);
    assert_eq!(&w[12..18], &[0, 0, 0x10, 0, 0x200, 0]);
    let mut good = response(false, 16, 0);
    put(&mut good, 32, 0x180);
    assert_eq!(ok(file.read_response(&good)), 0x180);
}

#[test]
fn file_system_time_stamp_and_rename() {
    let fs = IFileSystem::new(0u32);
    let mut good = response(false, 16, 0);
    put(&mut good, 32, 100);
    put(&mut good, 40, 200);
    put(&mut good, 48, 300);
    good[56] = 1;
    let t = ok(fs.get_file_time_stamp_raw_response(&good));
    assert_eq!((t.create, t.modify, t.access, t.is_local_time), (100, 200, 300, true));

    let bytes = fs.rename_file_request(0x1000, 0x2000).to_bytes();
    assert_eq!(bytes.len(), 56);
    let w = words(&bytes);
    assert_eq!(w[0], 4 | (2 << 16));
    assert_eq!(&w[2..6], &[769 << 16, 0x1000, 1 | (769 << 16), 0x2000]);
}

#[test]
fn directory_read_maps_whole_entries() {
    let dir = IDirectory::new(0u32);
    let bytes = dir.read_request(0x10000, 3).to_bytes();
    assert_eq!(bytes.len(), 52);
    assert_eq!(words(&bytes[8..20]), vec![3 * 784, 0x10000, 0]);
    let mut good = response(false, 16, 0);
    put(&mut good, 32, 2);
    assert_eq!(ok(dir.read_response(&good)), 2);
}

#[test]
fn close_request_layout() {
    let bytes = horizon::ipc::control::close_request();
    assert_eq!(bytes.len(), 40);
    assert_eq!(words(&bytes), vec![2, 10, 0, 0, 0x49434653, 1, 3, 0, 0, 0]);
}

const MAGIC_IN: u32 = 0x49434653;

#[test]
fn loader_set_current_process_sends_the_pid() {
    let fs = IFileSystemProxyForLoader::new(0u32);
    let bytes = fs.set_current_process_request().to_bytes();
    assert_eq!(bytes.len(), 60);
    let w = words(&bytes);
    assert_eq!(&w[0..3], &[4, 10 | (1 << 31), 1]);
    assert_eq!(&w[3..8], &[0, 0, 0, 0, 0]);
    assert_eq!(&w[8..12], &[MAGIC_IN, 1, 2, 0]);
    assert_eq!(&w[12..15], &[0, 0, 0]);
    assert!(fs.set_current_process_response(&response(false, 16, 0)).is_ok());
    assert_eq!(err(fs.set_current_process_response(&response(false, 16, 0x202))), 0x202);
}

#[test]
fn loader_is_archived_program_reads_a_bool() {
    let fs = IFileSystemProxyForLoader::new(0u32);
    let bytes = fs.is_archived_program_request(0x51).to_bytes();
    assert_eq!(bytes.len(), 48);
    assert_eq!(words(&bytes), vec![4, 10, 0, 0, MAGIC_IN, 1, 1, 0, 0x51, 0, 0, 0]);
    let mut yes = response(false, 16, 0);
    yes[32] = 1;
    assert!(ok(fs.is_archived_program_response(&yes)));
    assert!(!ok(fs.is_archived_program_response(&response(false, 16, 0))));
}

#[test]
fn proxy_opens_the_sd_card() {
    let fs = IFileSystemProxy::new(0u32);
    let bytes = fs.open_sd_card_file_system_request().to_bytes();
    assert_eq!(bytes.len(), 40);
    assert_eq!(words(&bytes), vec![4, 8, 0, 0, MAGIC_IN, 1, 18, 0, 0, 0]);
    let mut good = response(true, 16, 0);
    put(&mut good, 8, 1 << 5);
    put(&mut good, 12, 0x99);
    assert_eq!(ok(fs.open_sd_card_file_system_response(&good)).handle.leak(), RawHandle(0x99));
    let mut no_special = response(false, 16, 0);
    put(&mut no_special, 24, 0x7d402);
    assert_eq!(err(fs.open_sd_card_file_system_response(&no_special)), 0x7d402);
}

#[test]
fn file_system_create_file_layout() {
    let fs = IFileSystem::new(0u32);
    let bytes = fs.create_file_request(0x3000, 0x1_0000_0002, CreateOption { bits: 1 }).to_bytes();
    assert_eq!(bytes.len(), 64);
    let w = words(&bytes);
    assert_eq!(&w[0..4], &[4 | (1 << 16), 12, 769 << 16, 0x3000]);
    assert_eq!(&w[4..8], &[MAGIC_IN, 1, 0, 0]);
    assert_eq!(&w[8..12], &[1, 0, 2, 1]);
    assert_eq!(&w[12..16], &[0, 0, 0, 0]);
    assert!(fs.create_file_response(&response(false, 16, 0)).is_ok());
}

#[test]
fn file_system_path_commands_use_their_ids() {
    let fs = IFileSystem::new(0u32);
    let cases = [
        (fs.delete_file_request(0x10).to_bytes(), 1),
        (fs.create_directory_request(0x10).to_bytes(), 2),
        (fs.delete_directory_request(0x10).to_bytes(), 3),
        (fs.delete_directory_recursively_request(0x10).to_bytes(), 4),
        (fs.get_entry_type_request(0x10).to_bytes(), 7),
        (fs.get_free_space_size_request(0x10).to_bytes(), 11),
        (fs.get_total_space_size_request(0x10).to_bytes(), 12),
        (fs.clean_directory_recursively_request(0x10).to_bytes(), 13),
        (fs.get_file_time_stamp_raw_request(0x10).to_bytes(), 14),
    ];
    for (bytes, id) in cases.iter() {
        assert_eq!(bytes.len(), 48);
        let w = words(bytes);
        assert_eq!(&w[0..4], &[4 | (1 << 16), 8, 769 << 16, 0x10]);
        assert_eq!(&w[4..8], &[MAGIC_IN, 1, *id, 0]);
        assert_eq!(&w[8..12], &[0, 0, 0, 0]);
    }
}

#[test]
fn file_system_reads_entry_type_and_space() {
    let fs = IFileSystem::new(0u32);
    let mut good = response(false, 16, 0);
    put(&mut good, 32, 1);
    put(&mut good, 36, 2);
    assert_eq!(ok(fs.get_entry_type_response(&good)), 1);
    assert_eq!(ok(fs.get_free_space_size_response(&good)), 0x2_0000_0001);
    assert_eq!(ok(fs.get_total_space_size_response(&good)), 0x2_0000_0001);
    assert_eq!(err(fs.get_entry_type_response(&response(false, 16, 0x2ee202))), 0x2ee202);
    assert!(fs.commit_response(&response(false, 16, 0)).is_ok());
    assert_eq!(words(&fs.commit_request().to_bytes()), vec![4, 8, 0, 0, MAGIC_IN, 1, 10, 0, 0, 0]);
}

#[test]
fn file_write_maps_the_buffer() {
    let file = IFile::new(0u32);
    let bytes = file.write_request(0x10, 0x4000, 0x200, 0x200, WriteOption { bits: 1 }).to_bytes();
    assert_eq!(bytes.len(), 76);
    let w = words(&bytes);
    assert_eq!(&w[0..2], &[4 | (1 << 20), 14]);
    assert_eq!(&w[2..5], &[0x200, 0x4000, 1]);
    assert_eq!(&w[8..12], &[MAGIC_IN, 1, 1, 0]);
    assert_eq!(&w[12..18], &[1, 0, 0x10, 0, 0x200, 0]);
    assert!(file.write_response(&response(false, 16, 0)).is_ok());
}

#[test]
fn file_size_commands() {
    let file = IFile::new(0u32);
    let bytes = file.set_size_request(0x1234).to_bytes();
    assert_eq!(words(&bytes), vec![4, 10, 0, 0, MAGIC_IN, 1, 3, 0, 0x1234, 0, 0, 0]);
    let bytes = file.get_size_request().to_bytes();
    assert_eq!(words(&bytes), vec![4, 8, 0, 0, MAGIC_IN, 1, 4, 0, 0, 0]);
    let mut good = response(false, 16, 0);
    put(&mut good, 32, 0x800);
    assert_eq!(ok(file.get_size_response(&good)), 0x800);
    assert_eq!(words(&file.flush_request().to_bytes()), vec![4, 8, 0, 0, MAGIC_IN, 1, 2, 0, 0, 0]);
}

#[test]
fn file_operate_range_layout() {
    let file = IFile::new(0u32);
    let bytes = file.operate_range_request(OperationId::QueryRange, 0x20, 0x40).to_bytes();
    assert_eq!(bytes.len(), 64);
    assert_eq!(words(&bytes), vec![4, 14, 0, 0, MAGIC_IN, 1, 5, 0, 3, 0, 0x20, 0, 0x40, 0, 0, 0]);
    let mut good = response(false, 16, 0);
    good.resize(104, 0);
    put(&mut good, 32, 7);
    put(&mut good, 36, 9);
    good[40] = 0xee;
    let info = ok(file.operate_range_response(&good));
    assert_eq!((info.aes_ctr_key_type, info.speed_emulation_type), (7, 9));
    assert_eq!(info.reserved[0], 0xee);
}

#[test]
fn directory_entry_count() {
    let dir = IDirectory::new(0u32);
    assert_eq!(words(&dir.get_entry_count_request().to_bytes()), vec![4, 8, 0, 0, MAGIC_IN, 1, 1, 0, 0, 0]);
    let mut good = response(false, 16, 0);
    put(&mut good, 32, 5);
    assert_eq!(ok(dir.get_entry_count_response(&good)), 5);
}

#[test]
fn ldr_unpin_and_verification() {
    let ldr = IProcessManagerInterface::new(0u32);
    let bytes = ldr.unpin_program_request(PinId { value: 0x0102_0304_0506_0708 }).to_bytes();
    assert_eq!(words(&bytes), vec![4, 10, 0, 0, MAGIC_IN, 1, 3, 0, 0x0506_0708, 0x0102_0304, 0, 0]);
    let bytes = ldr.set_enabled_program_verification_request(true).to_bytes();
    assert_eq!(bytes.len(), 44);
    assert_eq!(&words(&bytes[0..32]), &[4, 9, 0, 0, MAGIC_IN, 1, 4, 0]);
    assert_eq!(&bytes[32..36], &[1, 0, 0, 0]);
    assert!(ldr.unpin_program_response(&response(false, 16, 0)).is_ok());
    assert_eq!(err(ldr.set_enabled_program_verification_response(&response(false, 16, 0x409))), 0x409);
}

#[test]
fn file_system_query_entry_descriptors() {
    let fs = IFileSystem::new(0u32);
    let bytes = fs
        .query_entry_request(0x5000, 0x20, 0x6000, 0x10, QueryId::IsSignedSystemPartitionOnSdCardValid, 0x7000)
        .to_bytes();
    assert_eq!(bytes.len(), 76);
    let w = words(&bytes);
    assert_eq!(&w[0..2], &[4 | (1 << 16) | (1 << 20) | (1 << 24), 9]);
    assert_eq!(&w[2..4], &[769 << 16, 0x7000]);
    assert_eq!(&w[4..7], &[0x10, 0x6000, 1]);
    assert_eq!(&w[7..10], &[0x20, 0x5000, 1]);
    assert_eq!(&w[12..16], &[MAGIC_IN, 1, 15, 0]);
    assert_eq!(&w[16..19], &[2, 0, 0]);
    assert!(fs.query_entry_response(&response(false, 16, 0)).is_ok());
}

#[test]
fn file_operate_range_with_buffer_descriptors() {
    let file = IFile::new(0u32);
    let bytes = file
        .operate_range_with_buffer_request(0x5000, 0x40, 0x6000, 0x30, OperationId::InvalidateCache, 0x100, 0x200)
        .to_bytes();
    assert_eq!(bytes.len(), 88);
    let w = words(&bytes);
    assert_eq!(&w[0..2], &[4 | (1 << 20) | (1 << 24), 14]);
    assert_eq!(&w[2..5], &[0x30, 0x6000, 1]);
    assert_eq!(&w[5..8], &[0x40, 0x5000, 1]);
    assert_eq!(&w[8..12], &[MAGIC_IN, 1, 6, 0]);
    assert_eq!(&w[12..18], &[2, 0, 0x100, 0, 0x200, 0]);
    assert_eq!(&w[18..22], &[0, 0, 0, 0]);
    assert!(file.operate_range_with_buffer_response(&response(false, 16, 0)).is_ok());
}

#[test]
fn file_system_open_file_returns_a_handle() {
    let fs = IFileSystem::new(0u32);
    let bytes = fs.open_file_request(0x3000, OpenFileMode { bits: 3 }).to_bytes();
    assert_eq!(bytes.len(), 52);
    let w = words(&bytes);
    assert_eq!(&w[0..4], &[4 | (1 << 16), 9, 769 << 16, 0x3000]);
    assert_eq!(&w[4..8], &[MAGIC_IN, 1, 8, 0]);
    assert_eq!(w[8], 3);
    let mut good = response(true, 16, 0);
    put(&mut good, 8, 1 << 5);
    put(&mut good, 12, 0x42);
    assert_eq!(ok(fs.open_file_response(&good)).handle.leak(), RawHandle(0x42));
    assert_eq!(err(fs.open_file_response(&response(true, 16, 0x202))), 0x202);
}
