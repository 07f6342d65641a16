use horizon::error::ErrorCode;
use horizon::ipc::cmif::{CmifInHeader, CmifOutHeader, CMIF_IN_MAGIC};
use horizon::ipc::conv::{CountingWriter, ReadFromBytes, Reader, SliceReader, SliceWriter, WriteAsBytes, Writer};
use horizon::ipc::hipc::{
    CommandType, HipcHeader, HipcInPointerBufferDescriptor, HipcMapAliasBufferDescriptor,
    HipcOutPointerBufferDescriptor, HipcSpecialHeader, MapAliasBufferMode,
};
use horizon::ipc::message::{parse_response, response_result, Request};
use horizon::ipc::sm::SmServiceName;
use horizon::ipc::wire::{push_u32, read_u32};

fn request(raw: Vec<u8>) -> Request {
    Request {
        command_type: CommandType::Request,
        send_pid: false,
        copy_handles: vec![],
        move_handles: vec![],
        in_pointers: vec![],
        in_map_aliases: vec![],
        out_map_aliases: vec![],
        inout_map_aliases: vec![],
        out_pointers: vec![],
        command_id: 0,
        raw_data: raw,
    }
}

#[test]
fn header_fields() {
    let h = HipcHeader::new(4, 1, 2, 3, 4, 9, 0, 0, true);
    assert_eq!(h.word0, 4 | (1 << 16) | (2 << 20) | (3 << 24) | (4 << 28));
    assert_eq!(h.num_in_pointers(), 1);
    assert_eq!(h.num_out_map_aliases(), 3);
    assert_eq!(h.num_data_words(), 9);
    assert_eq!(h.has_special_header(), 1);
    let cut = HipcHeader::new(4, 0x11, 0, 0, 0, 0x401, 0, 0, false);
    assert_eq!(cut.num_in_pointers(), 1);
    assert_eq!(cut.num_data_words(), 1);
    assert_eq!(cut.has_special_header(), 0);
}

#[test]
fn special_header_fields() {
    let s = HipcSpecialHeader::new(true, 2, 1);
    assert_eq!(s.word, 1 | (2 << 1) | (1 << 5));
    assert_eq!(s.send_pid(), 1);
    assert_eq!(s.num_copy_handles(), 2);
    assert_eq!(s.num_move_handles(), 1);
}

#[test]
fn descriptors_keep_address_and_size() {
    let a: usize = 0x7f_1234_5678;
    let d = HipcInPointerBufferDescriptor::new(3, a, 0x300);
    assert_eq!(d.address_low, 0x1234_5678);
    assert_eq!(d.bits & 0x3f, 3);
    assert_eq!(d.bits >> 16, 0x300);
    assert_eq!(((d.bits >> 12) & 0xf) as usize, (a >> 32) & 0xf);
    assert_eq!(((d.bits >> 6) & 0x7) as usize, (a >> 36) & 0x7);
    let o = HipcOutPointerBufferDescriptor::new(a, 0x10);
    assert_eq!(o.address_low, 0x1234_5678);
    assert_eq!(o.bits, 0x7f | (0x10 << 16));
    let m = HipcMapAliasBufferDescriptor::new(MapAliasBufferMode::NonSecure, a, 0x1000);
    assert_eq!(m.size_low, 0x1000);
    assert_eq!(m.address_low, 0x1234_5678);
    assert_eq!(m.bits & 3, 1);
    assert_eq!((m.bits >> 28) & 0xf, 0xf);
    assert_eq!((m.bits >> 2) & 0x7, 0x7);
}

#[test]
fn open_file_request_layout() {
    // one in pointer, four bytes of raw data: 52 bytes, 9 data words
    let mut r = request(vec![1, 0, 0, 0]);
    r.command_id = 8;
    r.in_pointers = vec![HipcInPointerBufferDescriptor::new(0, 0x1000, 0x301)];
    let b = r.to_bytes();
    assert_eq!(b.len(), 52);
    let h = HipcHeader { word0: read_u32(&b, 0), word1: read_u32(&b, 4) };
    assert_eq!(h.num_data_words(), 9);
    assert_eq!(h.num_in_pointers(), 1);
    assert_eq!(read_u32(&b, 16), CMIF_IN_MAGIC);
    assert_eq!(read_u32(&b, 20), 1);
    assert_eq!(read_u32(&b, 24), 8);
    assert_eq!(&b[32..36], &[1, 0, 0, 0]);
}

#[test]
fn read_request_layout() {
    // one map alias descriptor, 24 bytes of raw data: 76 bytes, 14 data words
    let mut r = request(vec![0; 24]);
    r.out_map_aliases = vec![HipcMapAliasBufferDescriptor::new(MapAliasBufferMode::NonSecure, 0x2000, 0x100)];
    let b = r.to_bytes();
    assert_eq!(b.len(), 76);
    let h = HipcHeader { word0: read_u32(&b, 0), word1: read_u32(&b, 4) };
    assert_eq!(h.num_data_words(), 14);
    assert_eq!(h.num_out_map_aliases(), 1);
    assert_eq!(read_u32(&b, 32), CMIF_IN_MAGIC);
}

#[test]
fn request_without_buffers() {
    let b = request(vec![]).to_bytes();
    assert_eq!(b.len(), 40);
    assert_eq!(read_u32(&b, 16), CMIF_IN_MAGIC);
}

#[test]
fn request_with_pid_and_handles() {
    let mut r = request(vec![]);
    r.send_pid = true;
    r.copy_handles = vec![0x11];
    let b = r.to_bytes();
    let h = HipcHeader { word0: read_u32(&b, 0), word1: read_u32(&b, 4) };
    assert_eq!(h.has_special_header(), 1);
    let s = HipcSpecialHeader { word: read_u32(&b, 8) };
    assert_eq!(s.send_pid(), 1);
    assert_eq!(s.num_copy_handles(), 1);
    assert_eq!(read_u32(&b, 20), 0x11);
    assert_eq!(read_u32(&b, 32), CMIF_IN_MAGIC);
}

fn response_bytes(special: Option<(u32, u32)>, result: u32, raw: &[u8]) -> Vec<u8> {
    let mut b = Vec::new();
    let words = ((32 + raw.len() + 3) / 4) as u32;
    let h = HipcHeader::new(0, 0, 0, 0, 0, words, 0, 0, special.is_some());
    push_u32(&mut b, h.word0);
    push_u32(&mut b, h.word1);
    if let Some((n, handle)) = special {
        push_u32(&mut b, HipcSpecialHeader::new(false, 0, n).word);
        for _ in 0..n {
            push_u32(&mut b, handle);
        }
    }
    while b.len() % 16 != 0 {
        b.push(0);
    }
    let cmif = CmifOutHeader { magic: CmifOutHeader::MAGIC, version: 0, result: ErrorCode::from_raw(result), token: 0 };
    cmif.write(&mut b);
    b.extend_from_slice(raw);
    b.resize(0x100, 0);
    b
}

#[test]
fn response_with_handle() {
    let b = response_bytes(Some((1, 0xabc)), 0, &[]);
    let r = parse_response(&b).unwrap();
    assert_eq!(r.move_handles, vec![0xabc]);
    assert!(r.cmif.result.is_success());
    assert!(response_result(&r, true).is_ok());
}

#[test]
fn response_with_data_and_failure() {
    let b = response_bytes(None, 0x202, &[1, 2, 3, 4, 5, 6, 7, 8]);
    let r = parse_response(&b).unwrap();
    assert_eq!(r.raw_data, vec![1, 2, 3, 4, 5, 6, 7, 8]);
    assert_eq!(response_result(&r, false).err().map(|e| e.repr()), Some(0x202));
}

#[test]
fn missing_special_header_is_an_error() {
    let b = response_bytes(None, 0, &[]);
    let r = parse_response(&b).unwrap();
    assert_eq!(response_result(&r, true).err().map(|e| e.repr()), Some(0));
    assert!(response_result(&r, false).is_ok());
}

#[test]
fn short_response_is_rejected() {
    assert!(parse_response(&[0u8; 8]).is_none());
    let b = response_bytes(None, 0, &[0; 16]);
    assert!(parse_response(&b[..40]).is_none());
}

#[test]
fn cmif_in_header_bytes() {
    let mut b = Vec::new();
    CmifInHeader { magic: CmifInHeader::MAGIC, version: 1, command_id: 2, token: 0 }.write(&mut b);
    assert_eq!(b, vec![0x53, 0x46, 0x43, 0x49, 1, 0, 0, 0, 2, 0, 0, 0, 0, 0, 0, 0]);
}

#[test]
fn writers_and_readers() {
    let mut w = SliceWriter::new(vec![0xff; 16]);
    0x1122_3344u32.write_as_bytes(&mut w);
    assert_eq!(w.align(8), 4);
    7u16.write_as_bytes(&mut w);
    assert_eq!(w.pos(), 10);
    let buf = w.into_inner();
    assert_eq!(&buf[..10], &[0x44, 0x33, 0x22, 0x11, 0, 0, 0, 0, 7, 0]);
    assert_eq!(buf[10], 0xff);

    let mut r = SliceReader::new(&buf);
    assert_eq!(u32::read_from_bytes(&mut r), 0x1122_3344);
    assert_eq!(r.align(8), 4);
    assert_eq!(u16::read_from_bytes(&mut r), 7);
    assert_eq!(r.read_bytes(2), &[0xff, 0xff]);

    let mut c = CountingWriter::new();
    5u64.write_as_bytes(&mut c);
    assert_eq!(c.align(16), 8);
    assert_eq!(c.count(), 16);
    assert_eq!((-1i32).size(), 4);
    assert_eq!(().size(), 0);
}

#[test]
fn sm_service_names() {
    let n = SmServiceName::try_new("fsp-srv").unwrap();
    assert_eq!(n.len(), 7);
    assert_eq!(n.as_str(), "fsp-srv");
    let n = SmServiceName::try_new("sm:").unwrap();
    assert_eq!(n.len(), 3);
    assert_eq!(n.as_str(), "sm:");
    let n = SmServiceName::try_new("pm:shell").unwrap();
    assert_eq!(n.len(), 8);
    assert_eq!(n.as_str(), "pm:shell");
    assert!(SmServiceName::try_new("abcdefghi").is_none());
    assert!(SmServiceName::try_new("é").is_none());
    assert_eq!(SmServiceName::try_new("").unwrap().len(), 0);
}

#[test]
fn slice_writer_bytes_read_back() {
    let mut w = SliceWriter::new(vec![0xaa; 8]);
    w.write_bytes(&[1, 2, 3]);
    w.write_bytes(&[4, 5]);
    assert_eq!(w.pos(), 5);
    let buf = w.into_inner();
    assert_eq!(buf, vec![1, 2, 3, 4, 5, 0xaa, 0xaa, 0xaa]);
    let mut r = SliceReader::new(&buf);
    assert_eq!(r.read_bytes(3), &[1, 2, 3]);
    assert_eq!(r.read_bytes(2), &[4, 5]);
}

#[test]
fn counting_writer_sums_and_aligns_near_the_top() {
    let mut c = CountingWriter::new();
    assert_eq!(c.count(), 0);
    c.write_bytes(&[0; 3]);
    c.write_bytes(&[0; 6]);
    assert_eq!(c.count(), 9);
    assert_eq!(c.align(4), 3);
    assert_eq!(c.count(), 12);
    assert_eq!(c.align(1), 0);
}
