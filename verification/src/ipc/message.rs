//! Whole messages: the bytes of a request as a client writes them into its
//! IPC buffer, and the fields of a response as it reads them back.
//!
//! A request is the HIPC header; the special header with the process id
//! placeholder and the handles, when any of them is sent; the in pointer and
//! map alias descriptors; the data words; and the receive list. The data
//! words are padding up to a 16-byte boundary, the CMIF header, the raw data
//! padded to whole words, and the rest of the 16 bytes of padding.

use vstd::prelude::*;
use crate::error::ErrorCode;
use crate::ipc::wire::{le_u32, from_le_u32, from_le_u64, push_u32, push_zeros, read_u32, read_u64};
use crate::ipc::hipc::{
    CommandType, HipcHeader, HipcSpecialHeader, HipcInPointerBufferDescriptor,
    HipcOutPointerBufferDescriptor, HipcMapAliasBufferDescriptor,
};
use crate::ipc::cmif::{CmifInHeader, CmifOutHeader, CMIF_IN_MAGIC};
use crate::swipc::text::push_bytes;

verus! {

/// The concatenation of `f` over `s`.
pub open spec fn concat_map<T>(s: Seq<T>, f: spec_fn(T) -> Seq<u8>) -> Seq<u8>
    decreases s.len(),
{
    if s.len() == 0 {
        Seq::empty()
    } else {
        concat_map(s.drop_last(), f) + f(s.last())
    }
}

/// `n` zero bytes.
pub open spec fn zeros(n: nat) -> Seq<u8> {
    Seq::new(n, |i: int| 0u8)
}

/// `n` rounded up to a multiple of 4.
pub open spec fn align4(n: nat) -> nat {
    ((n + 3) / 4 * 4) as nat
}

/// The padding that brings `n` to a multiple of 16.
pub open spec fn pad16(n: nat) -> nat {
    ((16 - n % 16) % 16) as nat
}

/// What a request carries.
#[derive(Debug)]
pub struct Request {
    pub command_type: CommandType,
    pub send_pid: bool,
    pub copy_handles: Vec<u32>,
    pub move_handles: Vec<u32>,
    pub in_pointers: Vec<HipcInPointerBufferDescriptor>,
    pub in_map_aliases: Vec<HipcMapAliasBufferDescriptor>,
    pub out_map_aliases: Vec<HipcMapAliasBufferDescriptor>,
    pub inout_map_aliases: Vec<HipcMapAliasBufferDescriptor>,
    pub out_pointers: Vec<HipcOutPointerBufferDescriptor>,
    pub command_id: u32,
    pub raw_data: Vec<u8>,
}

impl Request {
    /// Every count fits its field of the headers, and the data words fit too.
    pub open spec fn wf(&self) -> bool {
        &&& self.copy_handles@.len() <= 15
        &&& self.move_handles@.len() <= 15
        &&& self.in_pointers@.len() <= 15
        &&& self.in_map_aliases@.len() <= 15
        &&& self.out_map_aliases@.len() <= 15
        &&& self.inout_map_aliases@.len() <= 15
        &&& self.out_pointers@.len() <= 13
        &&& self.raw_data@.len() <= 4000
    }

    pub open spec fn has_special(&self) -> bool {
        self.send_pid || self.copy_handles@.len() > 0 || self.move_handles@.len() > 0
    }

    /// The number of data words: 16 bytes of padding, the CMIF header and the
    /// raw data in whole words.
    pub open spec fn num_data_words(&self) -> nat {
        (32 + align4(self.raw_data@.len())) / 4
    }

    /// The out pointer mode: 0 without receive list, else 2 plus its length.
    pub open spec fn out_pointer_mode(&self) -> nat {
        if self.out_pointers@.len() == 0 {
            0
        } else {
            2 + self.out_pointers@.len()
        }
    }

    /// The header words of the request.
    pub open spec fn header_spec(&self) -> HipcHeader {
        HipcHeader {
            word0: (self.command_type.value_spec() as u32) | ((self.in_pointers@.len() as u32) << 16u32) | ((
            self.in_map_aliases@.len() as u32) << 20u32) | ((self.out_map_aliases@.len() as u32) << 24u32) | ((
            self.inout_map_aliases@.len() as u32) << 28u32),
            word1: (self.num_data_words() as u32) | ((self.out_pointer_mode() as u32) << 10u32) | ((if self.has_special() {
                1u32
            } else {
                0u32
            }) << 31u32),
        }
    }

    /// The bytes before the data words.
    pub open spec fn prefix_spec(&self) -> Seq<u8> {
        self.header_spec().bytes() + (if self.has_special() {
            le_u32((if self.send_pid { 1u32 } else { 0u32 }) | ((self.copy_handles@.len() as u32) << 1u32) | ((
            self.move_handles@.len() as u32) << 5u32)) + (if self.send_pid {
                zeros(8)
            } else {
                Seq::empty()
            }) + concat_map(self.copy_handles@, |h: u32| le_u32(h)) + concat_map(
                self.move_handles@,
                |h: u32| le_u32(h),
            )
        } else {
            Seq::empty()
        }) + concat_map(self.in_pointers@, |d: HipcInPointerBufferDescriptor| d.bytes()) + concat_map(
            self.in_map_aliases@,
            |d: HipcMapAliasBufferDescriptor| d.bytes(),
        ) + concat_map(self.out_map_aliases@, |d: HipcMapAliasBufferDescriptor| d.bytes()) + concat_map(
            self.inout_map_aliases@,
            |d: HipcMapAliasBufferDescriptor| d.bytes(),
        )
    }

    /// The bytes of the whole request.
    pub open spec fn bytes_spec(&self) -> Seq<u8> {
        let prefix = self.prefix_spec();
        let pre = pad16(prefix.len());
        prefix + zeros(pre) + (CmifInHeader {
            magic: CMIF_IN_MAGIC,
            version: 1,
            command_id: self.command_id,
            token: 0,
        }).bytes() + self.raw_data@ + zeros((align4(self.raw_data@.len()) - self.raw_data@.len()) as nat)
            + zeros((16 - pre) as nat) + concat_map(
            self.out_pointers@,
            |d: HipcOutPointerBufferDescriptor| d.bytes(),
        )
    }

    /// The bytes of the request, as they go into the IPC buffer.
    pub fn to_bytes(&self) -> (r: Vec<u8>)
        requires
            self.wf(),
        ensures
            r@ == self.bytes_spec(),
    {
        let special = self.send_pid || self.copy_handles.len() > 0 || self.move_handles.len() > 0;
        let raw_len = self.raw_data.len();
        let padded_raw = (raw_len + 3) / 4 * 4;
        let num_data_words = ((32 + padded_raw) / 4) as u32;
        let out_pointer_mode: u32 = if self.out_pointers.len() == 0 {
            0
        } else {
            2 + self.out_pointers.len() as u32
        };
        let header = HipcHeader::new(
            self.command_type.to_u16(),
            self.in_pointers.len() as u32,
            self.in_map_aliases.len() as u32,
            self.out_map_aliases.len() as u32,
            self.inout_map_aliases.len() as u32,
            num_data_words,
            out_pointer_mode,
            0,
            special,
        );
        proof {
            lemma_header_words(self, header);
        }
        let mut out: Vec<u8> = Vec::new();
        header.write(&mut out);
        if special {
            let sh = HipcSpecialHeader::new(self.send_pid, self.copy_handles.len() as u32, self.move_handles.len() as u32);
            proof {
                lemma_special_word(self, sh);
            }
            push_u32(&mut out, sh.word);
            if self.send_pid {
                push_zeros(&mut out, 8);
            }
            write_words(&mut out, &self.copy_handles);
            write_words(&mut out, &self.move_handles);
        }
        write_in_pointers(&mut out, &self.in_pointers);
        write_map_aliases(&mut out, &self.in_map_aliases);
        write_map_aliases(&mut out, &self.out_map_aliases);
        write_map_aliases(&mut out, &self.inout_map_aliases);
        let ghost prefix = out@;
        proof {
            assert(prefix =~= self.prefix_spec());
        }
        let pre = (16 - out.len() % 16) % 16;
        push_zeros(&mut out, pre);
        let cmif = CmifInHeader { magic: CMIF_IN_MAGIC, version: 1, command_id: self.command_id, token: 0 };
        cmif.write(&mut out);
        push_bytes(&mut out, self.raw_data.as_slice());
        push_zeros(&mut out, padded_raw - raw_len);
        push_zeros(&mut out, 16 - pre);
        write_out_pointers(&mut out, &self.out_pointers);
        proof {
            assert(out@ =~= self.bytes_spec());
        }
        out
    }
}

proof fn lemma_header_words(r: &Request, h: HipcHeader)
    requires
        r.wf(),
        h.type_spec() == r.command_type.value_spec() as u32,
        h.num_in_pointers_spec() == (r.in_pointers@.len() as u32) & 0xf,
        h.num_in_map_aliases_spec() == (r.in_map_aliases@.len() as u32) & 0xf,
        h.num_out_map_aliases_spec() == (r.out_map_aliases@.len() as u32) & 0xf,
        h.num_inout_map_aliases_spec() == (r.inout_map_aliases@.len() as u32) & 0xf,
        h.num_data_words_spec() == (r.num_data_words() as u32) & 0x3ff,
        h.out_pointer_mode_spec() == (r.out_pointer_mode() as u32) & 0xf,
        h.recv_list_offset_spec() == 0u32 & 0x7ff,
        h.has_special_header_spec() == (if r.has_special() { 1u32 } else { 0u32 }),
        (h.word1 >> 14u32) & 0x3f == 0,
    ensures
        h == r.header_spec(),
{
    let w0 = h.word0;
    let w1 = h.word1;
    let t = r.command_type.value_spec() as u32;
    let a = r.in_pointers@.len() as u32;
    let b = r.in_map_aliases@.len() as u32;
    let c = r.out_map_aliases@.len() as u32;
    let d = r.inout_map_aliases@.len() as u32;
    let n = r.num_data_words() as u32;
    let m = r.out_pointer_mode() as u32;
    let s: u32 = if r.has_special() { 1 } else { 0 };
    assert(t <= 7);
    assert(n <= 0x3ff);
    assert(w0 == t | (a << 16u32) | (b << 20u32) | (c << 24u32) | (d << 28u32)) by (bit_vector)
        requires
            t <= 7,
            a <= 15,
            b <= 15,
            c <= 15,
            d <= 15,
            w0 & 0xffff == t,
            (w0 >> 16u32) & 0xf == a & 0xf,
            (w0 >> 20u32) & 0xf == b & 0xf,
            (w0 >> 24u32) & 0xf == c & 0xf,
            (w0 >> 28u32) & 0xf == d & 0xf,
    ;
    assert(w1 == n | (m << 10u32) | (s << 31u32)) by (bit_vector)
        requires
            n <= 0x3ff,
            m <= 15,
            s <= 1,
            w1 & 0x3ff == n & 0x3ff,
            (w1 >> 10u32) & 0xf == m & 0xf,
            (w1 >> 14u32) & 0x3f == 0,
            (w1 >> 20u32) & 0x7ff == 0u32 & 0x7ff,
            (w1 >> 31u32) & 1 == s,
    ;
}

proof fn lemma_special_word(r: &Request, sh: HipcSpecialHeader)
    requires
        r.wf(),
        sh.send_pid_spec() == (if r.send_pid { 1u32 } else { 0u32 }),
        sh.num_copy_handles_spec() == (r.copy_handles@.len() as u32) & 0xf,
        sh.num_move_handles_spec() == (r.move_handles@.len() as u32) & 0xf,
        sh.word >> 9u32 == 0,
    ensures
        sh.word == (if r.send_pid { 1u32 } else { 0u32 }) | ((r.copy_handles@.len() as u32) << 1u32) | ((
        r.move_handles@.len() as u32) << 5u32),
{
    let w = sh.word;
    let p: u32 = if r.send_pid { 1 } else { 0 };
    let c = r.copy_handles@.len() as u32;
    let m = r.move_handles@.len() as u32;
    assert(w == p | (c << 1u32) | (m << 5u32)) by (bit_vector)
        requires
            p <= 1,
            c <= 15,
            m <= 15,
            w & 1 == p,
            (w >> 1u32) & 0xf == c & 0xf,
            (w >> 5u32) & 0xf == m & 0xf,
            w >> 9u32 == 0,
    ;
}

fn write_words(out: &mut Vec<u8>, ws: &Vec<u32>)
    ensures
        final(out)@ == old(out)@ + concat_map(ws@, |h: u32| le_u32(h)),
{
    let ghost o = out@;
    let mut i: usize = 0;
    while i < ws.len()
        invariant
            i <= ws@.len(),
            out@ == o + concat_map(ws@.take(i as int), |h: u32| le_u32(h)),
        decreases ws@.len() - i,
    {
        proof {
            assert(ws@.take(i + 1).drop_last() =~= ws@.take(i as int));
        }
        push_u32(out, ws[i]);
        i = i + 1;
        assert(out@ =~= o + concat_map(ws@.take(i as int), |h: u32| le_u32(h)));
    }
    assert(ws@.take(ws@.len() as int) =~= ws@);
}

fn write_in_pointers(out: &mut Vec<u8>, ds: &Vec<HipcInPointerBufferDescriptor>)
    ensures
        final(out)@ == old(out)@ + concat_map(ds@, |d: HipcInPointerBufferDescriptor| d.bytes()),
{
    let ghost o = out@;
    let mut i: usize = 0;
    while i < ds.len()
        invariant
            i <= ds@.len(),
            out@ == o + concat_map(ds@.take(i as int), |d: HipcInPointerBufferDescriptor| d.bytes()),
        decreases ds@.len() - i,
    {
        proof {
            assert(ds@.take(i + 1).drop_last() =~= ds@.take(i as int));
        }
        ds[i].write(out);
        i = i + 1;
        assert(out@ =~= o + concat_map(ds@.take(i as int), |d: HipcInPointerBufferDescriptor| d.bytes()));
    }
    assert(ds@.take(ds@.len() as int) =~= ds@);
}

fn write_out_pointers(out: &mut Vec<u8>, ds: &Vec<HipcOutPointerBufferDescriptor>)
    ensures
        final(out)@ == old(out)@ + concat_map(ds@, |d: HipcOutPointerBufferDescriptor| d.bytes()),
{
    let ghost o = out@;
    let mut i: usize = 0;
    while i < ds.len()
        invariant
            i <= ds@.len(),
            out@ == o + concat_map(ds@.take(i as int), |d: HipcOutPointerBufferDescriptor| d.bytes()),
        decreases ds@.len() - i,
    {
        proof {
            assert(ds@.take(i + 1).drop_last() =~= ds@.take(i as int));
        }
        ds[i].write(out);
        i = i + 1;
        assert(out@ =~= o + concat_map(ds@.take(i as int), |d: HipcOutPointerBufferDescriptor| d.bytes()));
    }
    assert(ds@.take(ds@.len() as int) =~= ds@);
}

fn write_map_aliases(out: &mut Vec<u8>, ds: &Vec<HipcMapAliasBufferDescriptor>)
    ensures
        final(out)@ == old(out)@ + concat_map(ds@, |d: HipcMapAliasBufferDescriptor| d.bytes()),
{
    let ghost o = out@;
    let mut i: usize = 0;
    while i < ds.len()
        invariant
            i <= ds@.len(),
            out@ == o + concat_map(ds@.take(i as int), |d: HipcMapAliasBufferDescriptor| d.bytes()),
        decreases ds@.len() - i,
    {
        proof {
            assert(ds@.take(i + 1).drop_last() =~= ds@.take(i as int));
        }
        ds[i].write(out);
        i = i + 1;
        assert(out@ =~= o + concat_map(ds@.take(i as int), |d: HipcMapAliasBufferDescriptor| d.bytes()));
    }
    assert(ds@.take(ds@.len() as int) =~= ds@);
}

/// Where the parts of a response are, as its headers give them.
pub struct ResponseShape {
    pub header: HipcHeader,
    pub special: Option<HipcSpecialHeader>,
    /// Offset of the process id, when one is sent.
    pub pid_at: Option<nat>,
    /// Offset of the first copy handle.
    pub handles_at: nat,
    pub num_copy: nat,
    pub num_move: nat,
    /// Offset of the CMIF header.
    pub cmif_at: nat,
    pub raw_len: nat,
}

/// The layout of the response in `b`, read from its headers.
pub open spec fn response_shape(b: Seq<u8>) -> ResponseShape {
    let header = HipcHeader { word0: from_le_u32(b), word1: from_le_u32(b.skip(4)) };
    let special = if header.has_special_header_spec() == 1 {
        Some(HipcSpecialHeader { word: from_le_u32(b.skip(8)) })
    } else {
        None
    };
    let pid_at: Option<nat> = match special {
        Some(sh) => if sh.send_pid_spec() == 1 { Some(12nat) } else { None },
        None => None,
    };
    let handles_at: nat = match special {
        Some(sh) => if sh.send_pid_spec() == 1 { 20nat } else { 12nat },
        None => 8nat,
    };
    let num_copy: nat = match special {
        Some(sh) => sh.num_copy_handles_spec() as nat,
        None => 0,
    };
    let num_move: nat = match special {
        Some(sh) => sh.num_move_handles_spec() as nat,
        None => 0,
    };
    let descriptors_end: nat = (handles_at + 4 * (num_copy + num_move) + 8 * header.num_in_pointers_spec() + 12 * (
    header.num_in_map_aliases_spec() + header.num_out_map_aliases_spec() + header.num_inout_map_aliases_spec())) as nat;
    let cmif_at: nat = descriptors_end + pad16(descriptors_end);
    let data_bytes = 4 * header.num_data_words_spec();
    ResponseShape {
        header,
        special,
        pid_at,
        handles_at,
        num_copy,
        num_move,
        cmif_at,
        raw_len: if data_bytes >= 32 { (data_bytes - 32) as nat } else { 0 },
    }
}

/// The `u32` words at `at`, `at + 4`, ..., `n` of them.
pub open spec fn words_at(b: Seq<u8>, at: nat, n: nat) -> Seq<u32> {
    Seq::new(n, |i: int| from_le_u32(b.skip(at + 4 * i)))
}

/// What a response carries.
pub struct Response {
    pub hipc: HipcHeader,
    pub special_header: Option<HipcSpecialHeader>,
    pub pid: Option<u64>,
    pub copy_handles: Vec<u32>,
    pub move_handles: Vec<u32>,
    pub cmif: CmifOutHeader,
    pub raw_data: Vec<u8>,
}

/// A response holds what its bytes say, at the places its headers give.
pub open spec fn response_matches(r: Response, b: Seq<u8>) -> bool {
    let sh = response_shape(b);
    &&& r.hipc == sh.header
    &&& r.special_header == sh.special
    &&& r.pid == (match sh.pid_at {
        Some(at) => Some(from_le_u64(b.skip(at as int))),
        None => None::<u64>,
    })
    &&& r.copy_handles@ == words_at(b, sh.handles_at, sh.num_copy)
    &&& r.move_handles@ == words_at(b, sh.handles_at + 4 * sh.num_copy, sh.num_move)
    &&& r.cmif.magic == from_le_u32(b.skip(sh.cmif_at as int))
    &&& r.cmif.version == from_le_u32(b.skip(sh.cmif_at + 4int))
    &&& r.cmif.result@ == from_le_u32(b.skip(sh.cmif_at + 8int))
    &&& r.cmif.token == from_le_u32(b.skip(sh.cmif_at + 12int))
    &&& r.raw_data@ == b.subrange(sh.cmif_at + 16int, sh.cmif_at + 16int + sh.raw_len)
}

/// The bytes that a response with this shape occupies.
pub open spec fn response_len(sh: ResponseShape) -> nat {
    sh.cmif_at + 16 + sh.raw_len
}

fn read_words(b: &[u8], at: usize, n: usize) -> (r: Vec<u32>)
    requires
        at + 4 * n <= b@.len(),
    ensures
        r@ == words_at(b@, at as nat, n as nat),
{
    let len = b.len();
    let mut r: Vec<u32> = Vec::new();
    let mut i: usize = 0;
    while i < n
        invariant
            i <= n,
            at + 4 * n <= b@.len(),
            len == b@.len(),
            r@ == words_at(b@, at as nat, i as nat),
        decreases n - i,
    {
        let w = read_u32(b, at + 4 * i);
        r.push(w);
        i = i + 1;
        assert(r@ =~= words_at(b@, at as nat, i as nat));
    }
    r
}

/// The bounds of the fields of the headers.
proof fn lemma_field_bounds(w0: u32, w1: u32, sw: u32)
    by (bit_vector)
    ensures
        (w0 >> 16u32) & 0xf <= 15,
        (w0 >> 20u32) & 0xf <= 15,
        (w0 >> 24u32) & 0xf <= 15,
        (w0 >> 28u32) & 0xf <= 15,
        w1 & 0x3ff <= 0x3ff,
        (w1 >> 31u32) & 1 <= 1,
        sw & 1 <= 1,
        (sw >> 1u32) & 0xf <= 15,
        (sw >> 5u32) & 0xf <= 15,
{
}

/// The places of the parts of a response, computed from its headers.
fn shape_of(b: &[u8]) -> (r: (HipcHeader, Option<HipcSpecialHeader>, Option<usize>, usize, usize, usize, usize, usize))
    requires
        b@.len() >= 12,
    ensures
        ({
            let sh = response_shape(b@);
            &&& r.0 == sh.header
            &&& r.1 == sh.special
            &&& r.2 matches Some(p) ==> sh.pid_at == Some(p as nat)
            &&& r.2 is None ==> sh.pid_at is None
            &&& r.3 == sh.handles_at
            &&& r.4 == sh.num_copy
            &&& r.5 == sh.num_move
            &&& r.6 == sh.cmif_at
            &&& r.7 == sh.raw_len
            &&& r.6 <= 1024
            &&& r.7 <= 4096
        }),
{
    let hipc = HipcHeader { word0: read_u32(b, 0), word1: read_u32(b, 4) };
    let mut special_header: Option<HipcSpecialHeader> = None;
    let mut handles_at: usize = 8;
    let mut pid_at: Option<usize> = None;
    let mut num_copy: usize = 0;
    let mut num_move: usize = 0;
    let sw = read_u32(b, 8);
    proof {
        lemma_field_bounds(hipc.word0, hipc.word1, sw);
    }
    if hipc.has_special_header() == 1 {
        let shd = HipcSpecialHeader { word: sw };
        special_header = Some(shd);
        if shd.send_pid() == 1 {
            pid_at = Some(12);
            handles_at = 20;
        } else {
            handles_at = 12;
        }
        num_copy = shd.num_copy_handles() as usize;
        num_move = shd.num_move_handles() as usize;
    }
    let n_in = hipc.num_in_pointers() as usize;
    let n_maps = (hipc.num_in_map_aliases() + hipc.num_out_map_aliases() + hipc.num_inout_map_aliases()) as usize;
    let descriptors_end: usize = handles_at + 4 * (num_copy + num_move) + 8 * n_in + 12 * n_maps;
    let cmif_at = descriptors_end + (16 - descriptors_end % 16) % 16;
    let data_bytes = 4 * (hipc.num_data_words() as usize);
    let raw_len: usize = if data_bytes >= 32 { data_bytes - 32 } else { 0 };
    proof {
        let sh = response_shape(b@);
        assert(b@.skip(4) == b@.skip(4int));
        assert(hipc == sh.header);
        assert(special_header == sh.special);
        assert(handles_at == sh.handles_at);
        assert(num_copy == sh.num_copy);
        assert(num_move == sh.num_move);
        assert(descriptors_end == (handles_at + 4 * (num_copy + num_move) + 8 * sh.header.num_in_pointers_spec() + 12 * (
            sh.header.num_in_map_aliases_spec() + sh.header.num_out_map_aliases_spec()
                + sh.header.num_inout_map_aliases_spec())));
        assert(cmif_at == sh.cmif_at);
        assert(raw_len == sh.raw_len);
    }
    (hipc, special_header, pid_at, handles_at, num_copy, num_move, cmif_at, raw_len)
}

/// Read a response from the bytes of the IPC buffer; `None` when the buffer
/// is shorter than its headers say.
pub fn parse_response(b: &[u8]) -> (r: Option<Response>)
    ensures
        r matches Some(resp) ==> response_matches(resp, b@),
        r is None <==> (b@.len() < 12 || b@.len() < response_len(response_shape(b@))),
{
    if b.len() < 12 {
        return None;
    }
    let (hipc, special_header, pid_at, handles_at, num_copy, num_move, cmif_at, raw_len) = shape_of(b);
    if b.len() < cmif_at + 16 + raw_len {
        return None;
    }
    let pid = match pid_at {
        Some(at) => Some(read_u64(b, at)),
        None => None,
    };
    let copy_handles = read_words(b, handles_at, num_copy);
    let move_handles = read_words(b, handles_at + 4 * num_copy, num_move);
    let cmif = CmifOutHeader {
        magic: read_u32(b, cmif_at),
        version: read_u32(b, cmif_at + 4),
        result: ErrorCode::from_raw(read_u32(b, cmif_at + 8)),
        token: read_u32(b, cmif_at + 12),
    };
    let raw_data = crate::swipc::text::copy_bytes(vstd::slice::slice_subrange(b, cmif_at + 16, cmif_at + 16 + raw_len));
    Some(Response { hipc, special_header, pid, copy_handles, move_handles, cmif, raw_data })
}

/// The result of a call, as a client that expects a special header in the
/// response (because it receives handles) or not decides it: a failure code
/// from the CMIF header; and, where a special header is expected but missing,
/// the code in the CMIF header's result field, whatever it is.
pub fn response_result(resp: &Response, expects_special_header: bool) -> (r: Result<(), ErrorCode>)
    ensures
        expects_special_header && resp.hipc.has_special_header_spec() == 0 ==> r == Err::<(), ErrorCode>(resp.cmif.result),
        !(expects_special_header && resp.hipc.has_special_header_spec() == 0) ==> (r is Ok <==> resp.cmif.result@ == 0),
        r matches Err(e) ==> e == resp.cmif.result,
{
    if expects_special_header {
        if resp.hipc.has_special_header() != 0 {
            if resp.cmif.result.is_failure() {
                return Err(resp.cmif.result);
            }
        } else {
            return Err(resp.cmif.result);
        }
    } else if resp.cmif.result.is_failure() {
        return Err(resp.cmif.result);
    }
    Ok(())
}

} // verus!
