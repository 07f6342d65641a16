//! HIPC: the kernel's message format. A message starts with a header that
//! counts what follows: an optional special header (process id, handles),
//! buffer descriptors, the data words, and the receive list.

use vstd::prelude::*;
use crate::ipc::wire::{le_u32, push_u32};

verus! {

/// The type of a message, in the low 16 bits of its header.
#[derive(Clone, Copy, PartialEq, Eq, Debug, Structural)]
pub enum CommandType {
    Invalid,
    LegacyRequest,
    Close,
    LegacyControl,
    Request,
    Control,
    RequestWithContext,
    ControlWithContext,
}

impl CommandType {
    pub open spec fn value_spec(self) -> u16 {
        match self {
            CommandType::Invalid => 0,
            CommandType::LegacyRequest => 1,
            CommandType::Close => 2,
            CommandType::LegacyControl => 3,
            CommandType::Request => 4,
            CommandType::Control => 5,
            CommandType::RequestWithContext => 6,
            CommandType::ControlWithContext => 7,
        }
    }

    /// The number that stands for the type on the wire.
    pub fn to_u16(&self) -> (r: u16)
        ensures
            r == self.value_spec(),
    {
        match self {
            CommandType::Invalid => 0,
            CommandType::LegacyRequest => 1,
            CommandType::Close => 2,
            CommandType::LegacyControl => 3,
            CommandType::Request => 4,
            CommandType::Control => 5,
            CommandType::RequestWithContext => 6,
            CommandType::ControlWithContext => 7,
        }
    }
}

/// Determines what MemoryState to use with the mapped memory in the sysmodule.
/// Used to enforce whether or not device mapping is allowed for src and dst buffers respectively.
#[derive(Clone, Copy, PartialEq, Eq, Debug, Structural)]
pub enum MapAliasBufferMode {
    /// Device mapping *not* allowed for src or dst.
    Normal,
    /// Device mapping allowed for src and dst.
    NonSecure,
    /// This buffer mode is invalid
    Invalid,
    /// Device mapping allowed for src but not for dst.
    NonDevice,
}

impl MapAliasBufferMode {
    pub open spec fn value_spec(self) -> u32 {
        match self {
            MapAliasBufferMode::Normal => 0,
            MapAliasBufferMode::NonSecure => 1,
            MapAliasBufferMode::Invalid => 2,
            MapAliasBufferMode::NonDevice => 3,
        }
    }

    /// The number that stands for the mode on the wire.
    pub fn to_u32(&self) -> (r: u32)
        ensures
            r == self.value_spec(),
    {
        match self {
            MapAliasBufferMode::Normal => 0,
            MapAliasBufferMode::NonSecure => 1,
            MapAliasBufferMode::Invalid => 2,
            MapAliasBufferMode::NonDevice => 3,
        }
    }
}

/// The first two words of a message.
///
/// Word 0: type (bits 0-15), in pointer descriptors (16-19), in map alias
/// descriptors (20-23), out map alias descriptors (24-27), in/out map alias
/// descriptors (28-31). Word 1: data words (0-9), out pointer mode (10-13),
/// receive list offset (20-30), special header present (31).
#[derive(Clone, Copy, PartialEq, Eq, Debug, Structural)]
pub struct HipcHeader {
    pub word0: u32,
    pub word1: u32,
}

impl HipcHeader {
    pub open spec fn type_spec(self) -> u32 {
        self.word0 & 0xffff
    }

    pub open spec fn num_in_pointers_spec(self) -> u32 {
        (self.word0 >> 16u32) & 0xf
    }

    pub open spec fn num_in_map_aliases_spec(self) -> u32 {
        (self.word0 >> 20u32) & 0xf
    }

    pub open spec fn num_out_map_aliases_spec(self) -> u32 {
        (self.word0 >> 24u32) & 0xf
    }

    pub open spec fn num_inout_map_aliases_spec(self) -> u32 {
        (self.word0 >> 28u32) & 0xf
    }

    pub open spec fn num_data_words_spec(self) -> u32 {
        self.word1 & 0x3ff
    }

    pub open spec fn out_pointer_mode_spec(self) -> u32 {
        (self.word1 >> 10u32) & 0xf
    }

    pub open spec fn recv_list_offset_spec(self) -> u32 {
        (self.word1 >> 20u32) & 0x7ff
    }

    pub open spec fn has_special_header_spec(self) -> u32 {
        (self.word1 >> 31u32) & 1
    }

    /// The bytes of the header.
    pub open spec fn bytes(self) -> Seq<u8> {
        le_u32(self.word0) + le_u32(self.word1)
    }

    /// A header with the given fields; each count is cut to its bit width.
    pub fn new(
        type_: u16,
        num_in_pointers: u32,
        num_in_map_aliases: u32,
        num_out_map_aliases: u32,
        num_inout_map_aliases: u32,
        num_data_words: u32,
        out_pointer_mode: u32,
        recv_list_offset: u32,
        has_special_header: bool,
    ) -> (r: Self)
        ensures
            r.type_spec() == type_ as u32,
            r.num_in_pointers_spec() == num_in_pointers & 0xf,
            r.num_in_map_aliases_spec() == num_in_map_aliases & 0xf,
            r.num_out_map_aliases_spec() == num_out_map_aliases & 0xf,
            r.num_inout_map_aliases_spec() == num_inout_map_aliases & 0xf,
            r.num_data_words_spec() == num_data_words & 0x3ff,
            r.out_pointer_mode_spec() == out_pointer_mode & 0xf,
            r.recv_list_offset_spec() == recv_list_offset & 0x7ff,
            r.has_special_header_spec() == (if has_special_header { 1u32 } else { 0u32 }),
            (r.word1 >> 14u32) & 0x3f == 0,
    {
        let t = type_ as u32;
        let a = num_in_pointers;
        let b = num_in_map_aliases;
        let c = num_out_map_aliases;
        let d = num_inout_map_aliases;
        let word0 = t | ((a & 0xf) << 16u32) | ((b & 0xf) << 20u32) | ((c & 0xf) << 24u32) | ((d & 0xf) << 28u32);
        let w = num_data_words;
        let m = out_pointer_mode;
        let o = recv_list_offset;
        let s: u32 = if has_special_header { 1 } else { 0 };
        let word1 = (w & 0x3ff) | ((m & 0xf) << 10u32) | ((o & 0x7ff) << 20u32) | (s << 31u32);
        proof {
            assert(t <= 0xffff);
            assert(word0 & 0xffff == t) by (bit_vector)
                requires
                    t <= 0xffff,
                    word0 == t | ((a & 0xf) << 16u32) | ((b & 0xf) << 20u32) | ((c & 0xf) << 24u32) | ((d & 0xf) << 28u32),
            ;
            assert((word0 >> 16u32) & 0xf == a & 0xf && (word0 >> 20u32) & 0xf == b & 0xf && (word0 >> 24u32) & 0xf == c
                & 0xf && (word0 >> 28u32) & 0xf == d & 0xf) by (bit_vector)
                requires
                    t <= 0xffff,
                    word0 == t | ((a & 0xf) << 16u32) | ((b & 0xf) << 20u32) | ((c & 0xf) << 24u32) | ((d & 0xf) << 28u32),
            ;
            assert(word1 & 0x3ff == w & 0x3ff && (word1 >> 10u32) & 0xf == m & 0xf && (word1 >> 20u32) & 0x7ff == o & 0x7ff
                && (word1 >> 31u32) & 1 == s && (word1 >> 14u32) & 0x3f == 0) by (bit_vector)
                requires
                    s <= 1,
                    word1 == (w & 0x3ff) | ((m & 0xf) << 10u32) | ((o & 0x7ff) << 20u32) | (s << 31u32),
            ;
        }
        HipcHeader { word0, word1 }
    }

    pub fn num_in_pointers(&self) -> (r: u32)
        ensures
            r == self.num_in_pointers_spec(),
    {
        (self.word0 >> 16u32) & 0xf
    }

    pub fn num_in_map_aliases(&self) -> (r: u32)
        ensures
            r == self.num_in_map_aliases_spec(),
    {
        (self.word0 >> 20u32) & 0xf
    }

    pub fn num_out_map_aliases(&self) -> (r: u32)
        ensures
            r == self.num_out_map_aliases_spec(),
    {
        (self.word0 >> 24u32) & 0xf
    }

    pub fn num_inout_map_aliases(&self) -> (r: u32)
        ensures
            r == self.num_inout_map_aliases_spec(),
    {
        (self.word0 >> 28u32) & 0xf
    }

    pub fn num_data_words(&self) -> (r: u32)
        ensures
            r == self.num_data_words_spec(),
    {
        self.word1 & 0x3ff
    }

    pub fn out_pointer_mode(&self) -> (r: u32)
        ensures
            r == self.out_pointer_mode_spec(),
    {
        (self.word1 >> 10u32) & 0xf
    }

    pub fn has_special_header(&self) -> (r: u32)
        ensures
            r == self.has_special_header_spec(),
    {
        (self.word1 >> 31u32) & 1
    }

    /// Append the bytes of the header.
    pub fn write(&self, out: &mut Vec<u8>)
        ensures
            final(out)@ == old(out)@ + self.bytes(),
    {
        let ghost o = out@;
        push_u32(out, self.word0);
        push_u32(out, self.word1);
        assert(out@ =~= o + self.bytes());
    }
}

/// The word after the header when process id or handles are sent:
/// send process id (bit 0), copy handles (1-4), move handles (5-8).
#[derive(Clone, Copy, PartialEq, Eq, Debug, Structural)]
pub struct HipcSpecialHeader {
    pub word: u32,
}

impl HipcSpecialHeader {
    pub open spec fn send_pid_spec(self) -> u32 {
        self.word & 1
    }

    pub open spec fn num_copy_handles_spec(self) -> u32 {
        (self.word >> 1u32) & 0xf
    }

    pub open spec fn num_move_handles_spec(self) -> u32 {
        (self.word >> 5u32) & 0xf
    }

    pub fn new(send_pid: bool, num_copy_handles: u32, num_move_handles: u32) -> (r: Self)
        ensures
            r.send_pid_spec() == (if send_pid { 1u32 } else { 0u32 }),
            r.num_copy_handles_spec() == num_copy_handles & 0xf,
            r.num_move_handles_spec() == num_move_handles & 0xf,
            r.word >> 9u32 == 0,
    {
        let p: u32 = if send_pid { 1 } else { 0 };
        let c = num_copy_handles;
        let m = num_move_handles;
        let word = p | ((c & 0xf) << 1u32) | ((m & 0xf) << 5u32);
        assert(word & 1 == p && (word >> 1u32) & 0xf == c & 0xf && (word >> 5u32) & 0xf == m & 0xf && word >> 9u32 == 0)
            by (bit_vector)
            requires
                p <= 1,
                word == p | ((c & 0xf) << 1u32) | ((m & 0xf) << 5u32),
        ;
        HipcSpecialHeader { word }
    }

    pub fn send_pid(&self) -> (r: u32)
        ensures
            r == self.send_pid_spec(),
    {
        self.word & 1
    }

    pub fn num_copy_handles(&self) -> (r: u32)
        ensures
            r == self.num_copy_handles_spec(),
    {
        (self.word >> 1u32) & 0xf
    }

    pub fn num_move_handles(&self) -> (r: u32)
        ensures
            r == self.num_move_handles_spec(),
    {
        (self.word >> 5u32) & 0xf
    }
}

/// A buffer that the kernel copies to the receiver's pointer buffer.
/// Word 0: index (bits 0-5), address bits 36-38 (6-8), address bits 32-35
/// (12-15), size (16-31). Word 1: address bits 0-31.
#[derive(Clone, Copy, PartialEq, Eq, Debug, Structural)]
pub struct HipcInPointerBufferDescriptor {
    pub bits: u32,
    pub address_low: u32,
}

impl HipcInPointerBufferDescriptor {
    pub open spec fn index_spec(self) -> u32 {
        self.bits & 0x3f
    }

    pub open spec fn size_spec(self) -> u32 {
        (self.bits >> 16u32) & 0xffff
    }

    /// The address the descriptor holds.
    pub open spec fn address_spec(self) -> u64 {
        (self.address_low as u64) | ((((self.bits >> 12u32) & 0xf) as u64) << 32u64) | ((((self.bits >> 6u32)
            & 0x7) as u64) << 36u64)
    }

    pub open spec fn bytes(self) -> Seq<u8> {
        le_u32(self.bits) + le_u32(self.address_low)
    }

    /// A descriptor of the buffer at `address` with `size` bytes; the index
    /// fits in 6 bits, the address in 39 and the size in 16.
    pub fn new(index: usize, address: usize, size: usize) -> (r: Self)
        requires
            index >> 6usize == 0,
            address as u64 >> 39u64 == 0,
            size >> 16usize == 0,
        ensures
            r.index_spec() == index,
            r.size_spec() == size,
            r.address_spec() == address,
    {
        let i = index as u32;
        let s = size as u32;
        let a = address as u64;
        let address_low = a as u32;
        let address_mid = ((a >> 32u64) & 0b1111) as u32;
        let address_high = ((a >> 36u64) & 0b111) as u32;
        let bits = i | (address_high << 6u32) | (address_mid << 12u32) | (s << 16u32);
        proof {
            assert(i < 64 && s < 0x10000 && i as usize == index && s as usize == size) by (bit_vector)
                requires
                    i == index as u32,
                    s == size as u32,
                    index >> 6usize == 0,
                    size >> 16usize == 0,
            ;
            assert(address_mid <= 0xf && address_high <= 0x7) by (bit_vector)
                requires
                    address_mid == ((a >> 32u64) & 0b1111) as u32,
                    address_high == ((a >> 36u64) & 0b111) as u32,
            ;
            assert(bits & 0x3f == i && (bits >> 16u32) & 0xffff == s && (bits >> 12u32) & 0xf == address_mid
                && (bits >> 6u32) & 0x7 == address_high) by (bit_vector)
                requires
                    i < 64,
                    s < 0x10000,
                    address_mid <= 0xf,
                    address_high <= 0x7,
                    bits == i | (address_high << 6u32) | (address_mid << 12u32) | (s << 16u32),
            ;
            assert(address_mid <= 0xf && address_high <= 0x7) by (bit_vector)
                requires
                    address_mid == ((a >> 32u64) & 0b1111) as u32,
                    address_high == ((a >> 36u64) & 0b111) as u32,
            ;
            assert((address_low as u64) | ((address_mid as u64) << 32u64) | ((address_high as u64) << 36u64) == a)
                by (bit_vector)
                requires
                    a >> 39u64 == 0,
                    address_low == a as u32,
                    address_mid == ((a >> 32u64) & 0b1111) as u32,
                    address_high == ((a >> 36u64) & 0b111) as u32,
            ;
        }
        HipcInPointerBufferDescriptor { bits, address_low }
    }

    /// Append the bytes of the descriptor.
    pub fn write(&self, out: &mut Vec<u8>)
        ensures
            final(out)@ == old(out)@ + self.bytes(),
    {
        let ghost o = out@;
        push_u32(out, self.bits);
        push_u32(out, self.address_low);
        assert(out@ =~= o + self.bytes());
    }
}

/// A place in the sender's memory where the receiver may write back, an
/// entry of the receive list. Word 0: address bits 0-31. Word 1: address bits
/// 32-38 (0-15), size (16-31).
#[derive(Clone, Copy, PartialEq, Eq, Debug, Structural)]
pub struct HipcOutPointerBufferDescriptor {
    pub address_low: u32,
    pub bits: u32,
}

impl HipcOutPointerBufferDescriptor {
    pub open spec fn size_spec(self) -> u32 {
        (self.bits >> 16u32) & 0xffff
    }

    /// The address the descriptor holds.
    pub open spec fn address_spec(self) -> u64 {
        (self.address_low as u64) | (((self.bits & 0xffff) as u64) << 32u64)
    }

    pub open spec fn bytes(self) -> Seq<u8> {
        le_u32(self.address_low) + le_u32(self.bits)
    }

    /// A receive list entry for the buffer at `address` with `size` bytes; the
    /// address fits in 39 bits and the size in 16.
    pub fn new(address: usize, size: usize) -> (r: Self)
        requires
            address as u64 >> 39u64 == 0,
            size >> 16usize == 0,
        ensures
            r.size_spec() == size,
            r.address_spec() == address,
    {
        let s = size as u32;
        let a = address as u64;
        let address_low = a as u32;
        let address_high = ((a >> 32u64) & 0b1111111) as u32;
        let bits = address_high | (s << 16u32);
        proof {
            assert(s < 0x10000 && s as usize == size) by (bit_vector)
                requires
                    s == size as u32,
                    size >> 16usize == 0,
            ;
            assert(address_high <= 0x7f) by (bit_vector)
                requires
                    address_high == ((a >> 32u64) & 0b1111111) as u32,
            ;
            assert((bits >> 16u32) & 0xffff == s && bits & 0xffff == address_high) by (bit_vector)
                requires
                    s < 0x10000,
                    address_high <= 0x7f,
                    bits == address_high | (s << 16u32),
            ;
            assert((address_low as u64) | ((address_high as u64) << 32u64) == a) by (bit_vector)
                requires
                    a >> 39u64 == 0,
                    address_low == a as u32,
                    address_high == ((a >> 32u64) & 0b1111111) as u32,
            ;
        }
        HipcOutPointerBufferDescriptor { address_low, bits }
    }

    /// Append the bytes of the descriptor.
    pub fn write(&self, out: &mut Vec<u8>)
        ensures
            final(out)@ == old(out)@ + self.bytes(),
    {
        let ghost o = out@;
        push_u32(out, self.address_low);
        push_u32(out, self.bits);
        assert(out@ =~= o + self.bytes());
    }
}

/// A buffer that the kernel maps into the receiver. Word 0: size bits 0-31.
/// Word 1: address bits 0-31. Word 2: mode (bits 0-1), address bits 36-38
/// (2-4), size bits 32-35 (24-27), address bits 32-35 (28-31).
#[derive(Clone, Copy, PartialEq, Eq, Debug, Structural)]
pub struct HipcMapAliasBufferDescriptor {
    pub size_low: u32,
    pub address_low: u32,
    pub bits: u32,
}

impl HipcMapAliasBufferDescriptor {
    pub open spec fn mode_spec(self) -> u32 {
        self.bits & 0x3
    }

    pub open spec fn size_spec(self) -> u64 {
        (self.size_low as u64) | ((((self.bits >> 24u32) & 0xf) as u64) << 32u64)
    }

    /// The address the descriptor holds.
    pub open spec fn address_spec(self) -> u64 {
        (self.address_low as u64) | ((((self.bits >> 28u32) & 0xf) as u64) << 32u64) | ((((self.bits >> 2u32)
            & 0x7) as u64) << 36u64)
    }

    pub open spec fn bytes(self) -> Seq<u8> {
        le_u32(self.size_low) + le_u32(self.address_low) + le_u32(self.bits)
    }

    /// A descriptor of the buffer at `address` with `size` bytes, mapped in
    /// `mode`; the address fits in 39 bits and the size in 36.
    pub fn new(mode: MapAliasBufferMode, address: usize, size: usize) -> (r: Self)
        requires
            address as u64 >> 39u64 == 0,
            size as u64 >> 36u64 == 0,
        ensures
            r.mode_spec() == mode.value_spec(),
            r.size_spec() == size,
            r.address_spec() == address,
    {
        let md = mode.to_u32();
        let a = address as u64;
        let z = size as u64;
        let address_low = a as u32;
        let address_mid = ((a >> 32u64) & 0b1111) as u32;
        let address_high = ((a >> 36u64) & 0b111) as u32;
        let size_low = z as u32;
        let size_high = ((z >> 32u64) & 0b1111) as u32;
        let bits = md | (address_high << 2u32) | (size_high << 24u32) | (address_mid << 28u32);
        proof {
            assert(address_mid <= 0xf && address_high <= 0x7 && size_high <= 0xf) by (bit_vector)
                requires
                    address_mid == ((a >> 32u64) & 0b1111) as u32,
                    address_high == ((a >> 36u64) & 0b111) as u32,
                    size_high == ((z >> 32u64) & 0b1111) as u32,
            ;
            assert(bits & 0x3 == md && (bits >> 24u32) & 0xf == size_high && (bits >> 28u32) & 0xf == address_mid
                && (bits >> 2u32) & 0x7 == address_high) by (bit_vector)
                requires
                    md <= 3,
                    address_mid <= 0xf,
                    address_high <= 0x7,
                    size_high <= 0xf,
                    bits == md | (address_high << 2u32) | (size_high << 24u32) | (address_mid << 28u32),
            ;
            assert((address_low as u64) | ((address_mid as u64) << 32u64) | ((address_high as u64) << 36u64) == a)
                by (bit_vector)
                requires
                    a >> 39u64 == 0,
                    address_low == a as u32,
                    address_mid == ((a >> 32u64) & 0b1111) as u32,
                    address_high == ((a >> 36u64) & 0b111) as u32,
            ;
            assert((size_low as u64) | ((size_high as u64) << 32u64) == z) by (bit_vector)
                requires
                    z >> 36u64 == 0,
                    size_low == z as u32,
                    size_high == ((z >> 32u64) & 0b1111) as u32,
            ;
        }
        HipcMapAliasBufferDescriptor { size_low, address_low, bits }
    }

    /// Append the bytes of the descriptor.
    pub fn write(&self, out: &mut Vec<u8>)
        ensures
            final(out)@ == old(out)@ + self.bytes(),
    {
        let ghost o = out@;
        push_u32(out, self.size_low);
        push_u32(out, self.address_low);
        push_u32(out, self.bits);
        assert(out@ =~= o + self.bytes());
    }
}

} // verus!
