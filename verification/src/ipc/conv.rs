//! Writers and readers of byte streams, and the values that go through them
//! as their little-endian bytes.

use vstd::prelude::*;
use crate::ipc::wire::{
    le_u16, le_u32, le_u64, from_le_u16, from_le_u32, from_le_u64, lemma_le_u16_roundtrip,
    lemma_le_u32_roundtrip, lemma_le_u64_roundtrip, push_u16, push_u32, push_u64,
};

verus! {

/// `n` zero bytes.
pub open spec fn zero_bytes(n: nat) -> Seq<u8> {
    Seq::new(n, |i: int| 0u8)
}

/// The padding that brings `pos` to a multiple of `alignment`.
pub open spec fn align_padding(pos: nat, alignment: nat) -> nat {
    ((((pos + alignment - 1) as int) / (alignment as int)) * (alignment as int) - pos) as nat
}

/// Something bytes are written to.
pub trait Writer {
    /// The writer's own consistency.
    spec fn wf(&self) -> bool;

    /// The bytes written so far, padding included.
    spec fn written(&self) -> Seq<u8>;

    /// How many more bytes fit.
    spec fn room(&self) -> nat;

    fn write_bytes(&mut self, data: &[u8])
        requires
            old(self).wf(),
            data@.len() <= old(self).room(),
        ensures
            final(self).wf(),
            final(self).written() == old(self).written() + data@,
            final(self).room() == old(self).room() - data@.len(),
    ;

    /// Align the buffer to [alignment] bytes, return number of alignment bytes inserted
    fn align(&mut self, alignment: usize) -> (r: usize)
        requires
            old(self).wf(),
            alignment > 0,
            old(self).written().len() + alignment - 1 <= usize::MAX,
            align_padding(old(self).written().len(), alignment as nat) <= old(self).room(),
        ensures
            final(self).wf(),
            r == align_padding(old(self).written().len(), alignment as nat),
            final(self).written() == old(self).written() + zero_bytes(r as nat),
            final(self).room() == old(self).room() - r,
    ;
}

/// Counts the bytes written, and keeps nothing else.
pub struct CountingWriter {
    count: usize,
    log: Ghost<Seq<u8>>,
}

impl CountingWriter {
    pub fn new() -> (r: Self)
        ensures
            r.wf(),
            r.written() == Seq::<u8>::empty(),
            r.room() == usize::MAX,
    {
        CountingWriter { count: 0, log: Ghost(Seq::empty()) }
    }

    #[verifier::type_invariant]
    spec fn inv(self) -> bool {
        self.count == self.log@.len()
    }

    /// How many bytes were written.
    pub fn count(&self) -> (r: usize)
        ensures
            r == self.written().len(),
            self.room() == usize::MAX - self.written().len(),
    {
        proof {
            use_type_invariant(self);
        }
        self.count
    }
}

impl Writer for CountingWriter {
    closed spec fn wf(&self) -> bool {
        true
    }

    closed spec fn written(&self) -> Seq<u8> {
        self.log@
    }

    closed spec fn room(&self) -> nat {
        (usize::MAX - self.count) as nat
    }

    fn write_bytes(&mut self, data: &[u8]) {
        proof {
            use_type_invariant(&*self);
        }
        let count = self.count + data.len();
        let ghost log = self.log@ + data@;
        *self = CountingWriter { count, log: Ghost(log) };
    }

    fn align(&mut self, alignment: usize) -> (r: usize) {
        proof {
            use_type_invariant(&*self);
        }
        let c = self.count;
        let x = c + (alignment - 1);
        let q = x / alignment;
        assert(q * alignment <= x && q * alignment >= c) by (nonlinear_arith)
            requires
                alignment > 0,
                x == c + alignment - 1,
                q == x / alignment,
        ;
        let new_len = q * alignment;
        let need_align = new_len - c;
        let ghost log = self.log@ + zero_bytes(need_align as nat);
        *self = CountingWriter { count: new_len, log: Ghost(log) };
        need_align
    }
}

/// The bytes of the pieces `ds`, one after another.
pub open spec fn concat_all(ds: Seq<Seq<u8>>) -> Seq<u8>
    decreases ds.len(),
{
    if ds.len() == 0 {
        Seq::empty()
    } else {
        concat_all(ds.drop_last()) + ds.last()
    }
}

/// The sum of the lengths of the pieces `ds`.
pub open spec fn total_len(ds: Seq<Seq<u8>>) -> nat
    decreases ds.len(),
{
    if ds.len() == 0 {
        0
    } else {
        total_len(ds.drop_last()) + ds.last().len()
    }
}

/// The pieces `ds` have as many bytes together as the sum of their lengths.
pub proof fn lemma_count_of_writes(ds: Seq<Seq<u8>>)
    ensures
        concat_all(ds).len() == total_len(ds),
    decreases ds.len(),
{
    if ds.len() > 0 {
        lemma_count_of_writes(ds.drop_last());
    }
}

/// A writer that started empty and was given the pieces `ds` in turn, each
/// call going from `ws[i]` to `ws[i + 1]` as `write_bytes` states, holds their
/// bytes one after another; so a counting writer built by `new` and given
/// them counts the sum of their lengths.
pub proof fn lemma_writes_in_turn<W: Writer>(ws: Seq<W>, ds: Seq<Seq<u8>>)
    requires
        ws.len() == ds.len() + 1,
        ws[0].written() == Seq::<u8>::empty(),
        forall|i: int| 0 <= i < ds.len() ==> (#[trigger] ws[i + 1]).written() == ws[i].written() + ds[i],
    ensures
        ws.last().written() == concat_all(ds),
        ws.last().written().len() == total_len(ds),
    decreases ds.len(),
{
    lemma_count_of_writes(ds);
    if ds.len() > 0 {
        let ws2 = ws.drop_last();
        let ds2 = ds.drop_last();
        assert forall|i: int| 0 <= i < ds2.len() implies (#[trigger] ws2[i + 1]).written() == ws2[i].written() + ds2[i] by {
            assert(ws[i + 1] == ws2[i + 1]);
        }
        lemma_writes_in_turn(ws2, ds2);
        assert(ws[ds.len() as int] == ws.last());
        assert(ws[ds.len() - 1] == ws2.last());
    }
}

/// Writes into a buffer of fixed size, from its start.
pub struct SliceWriter {
    buffer: Vec<u8>,
    pos: usize,
}

impl SliceWriter {
    /// The whole buffer, what was written and what was there before.
    pub closed spec fn contents(&self) -> Seq<u8> {
        self.buffer@
    }

    pub fn new(buffer: Vec<u8>) -> (r: Self)
        ensures
            r.wf(),
            r.written() == Seq::<u8>::empty(),
            r.room() == buffer@.len(),
            r.contents() == buffer@,
    {
        SliceWriter { buffer, pos: 0 }
    }

    /// How many bytes were written.
    pub fn pos(&self) -> (r: usize)
        requires
            self.wf(),
        ensures
            r == self.written().len(),
            self.written() == self.contents().take(self.written().len() as int),
            self.room() == self.contents().len() - self.written().len(),
    {
        self.pos
    }

    /// The buffer: the bytes written, then what was there before.
    pub fn into_inner(self) -> (r: Vec<u8>)
        requires
            self.wf(),
        ensures
            r@ == self.contents(),
            r@.take(self.written().len() as int) == self.written(),
    {
        self.buffer
    }
}

/// What a slice writer has written is the start of its buffer, and its room
/// is the rest of the buffer.
pub proof fn lemma_slice_writer_parts(w: SliceWriter)
    requires
        w.wf(),
    ensures
        w.written() == w.contents().take(w.written().len() as int),
        w.room() == w.contents().len() - w.written().len(),
{
}

impl Writer for SliceWriter {
    closed spec fn wf(&self) -> bool {
        self.pos <= self.buffer@.len()
    }

    closed spec fn written(&self) -> Seq<u8> {
        self.buffer@.take(self.pos as int)
    }

    closed spec fn room(&self) -> nat {
        (self.buffer@.len() - self.pos) as nat
    }

    fn write_bytes(&mut self, data: &[u8])
        ensures
            final(self).contents() == old(self).written() + data@ + old(self).contents().skip(
                (old(self).written().len() + data@.len()) as int,
            ),
    {
        let pos = self.pos;
        let n = self.buffer.len();
        let ghost b0 = self.buffer@;
        let mut i: usize = 0;
        while i < data.len()
            invariant
                i <= data@.len(),
                n == b0.len(),
                pos == self.pos,
                pos + data@.len() <= b0.len(),
                self.buffer@.len() == b0.len(),
                forall|j: int| 0 <= j < pos ==> self.buffer@[j] == b0[j],
                forall|j: int| 0 <= j < i ==> self.buffer@[pos + j] == data@[j],
                forall|j: int| pos + data@.len() <= j < b0.len() ==> self.buffer@[j] == b0[j],
            decreases data@.len() - i,
        {
            self.buffer.set(pos + i, data[i]);
            i = i + 1;
        }
        assert(self.buffer@.take(pos + data@.len()) =~= b0.take(pos as int) + data@);
        assert(self.buffer@ =~= b0.take(pos as int) + data@ + b0.skip(pos + data@.len()));
        self.pos = pos + data.len();
    }

    fn align(&mut self, alignment: usize) -> (r: usize)
        ensures
            final(self).contents() == old(self).written() + zero_bytes(r as nat) + old(self).contents().skip(
                old(self).written().len() + r as int,
            ),
    {
        let c = self.pos;
        let x = c + (alignment - 1);
        let q = x / alignment;
        assert(q * alignment <= x && q * alignment >= c) by (nonlinear_arith)
            requires
                alignment > 0,
                x == c + alignment - 1,
                q == x / alignment,
        ;
        let new_pos = q * alignment;
        let need_align = new_pos - c;
        let zeros: Vec<u8> = vec_of_zeros(need_align);
        self.write_bytes(zeros.as_slice());
        need_align
    }
}

fn vec_of_zeros(n: usize) -> (r: Vec<u8>)
    ensures
        r@ == zero_bytes(n as nat),
{
    let mut v: Vec<u8> = Vec::new();
    let mut i: usize = 0;
    while i < n
        invariant
            i <= n,
            v@ == zero_bytes(i as nat),
        decreases n - i,
    {
        v.push(0u8);
        i = i + 1;
        assert(v@ =~= zero_bytes(i as nat));
    }
    v
}

/// Something bytes are read from.
pub trait Reader<'d> {
    /// The bytes not read yet.
    spec fn remaining(&self) -> Seq<u8>;

    /// How many bytes were read, padding included.
    spec fn consumed(&self) -> nat;

    fn read_bytes(&mut self, size: usize) -> (r: &'d [u8])
        requires
            size <= old(self).remaining().len(),
        ensures
            r@ == old(self).remaining().take(size as int),
            final(self).remaining() == old(self).remaining().skip(size as int),
            final(self).consumed() == old(self).consumed() + size,
    ;

    /// Align the buffer to [alignment] bytes, return number of alignment bytes inserted
    fn align(&mut self, alignment: usize) -> (r: usize)
        requires
            alignment > 0,
            old(self).consumed() + alignment - 1 <= usize::MAX,
            align_padding(old(self).consumed(), alignment as nat) <= old(self).remaining().len(),
        ensures
            r == align_padding(old(self).consumed(), alignment as nat),
            final(self).remaining() == old(self).remaining().skip(r as int),
            final(self).consumed() == old(self).consumed() + r,
    ;
}

/// Reads a slice from its start.
pub struct SliceReader<'d> {
    leftover: &'d [u8],
    pos: usize,
}

impl<'d> SliceReader<'d> {
    #[verifier::type_invariant]
    spec fn inv(self) -> bool {
        self.pos + self.leftover@.len() <= usize::MAX
    }

    pub fn new(slice: &'d [u8]) -> (r: Self)
        ensures
            r.remaining() == slice@,
            r.consumed() == 0,
    {
        let n = slice.len();
        Self { pos: 0, leftover: slice }
    }
}

impl<'d> Reader<'d> for SliceReader<'d> {
    closed spec fn remaining(&self) -> Seq<u8> {
        self.leftover@
    }

    closed spec fn consumed(&self) -> nat {
        self.pos as nat
    }

    fn read_bytes(&mut self, size: usize) -> (r: &'d [u8]) {
        proof {
            use_type_invariant(&*self);
        }
        let (ret, left) = self.leftover.split_at(size);
        proof {
            assert(left@ =~= self.leftover@.skip(size as int));
            assert(ret@ =~= self.leftover@.take(size as int));
        }
        *self = SliceReader { leftover: left, pos: self.pos + size };
        ret
    }

    fn align(&mut self, alignment: usize) -> (r: usize) {
        proof {
            use_type_invariant(&*self);
        }
        let c = self.pos;
        let x = c + (alignment - 1);
        let q = x / alignment;
        assert(q * alignment <= x && q * alignment >= c) by (nonlinear_arith)
            requires
                alignment > 0,
                x == c + alignment - 1,
                q == x / alignment,
        ;
        let new_pos = q * alignment;
        let need_align = new_pos - c;
        let (_, left) = self.leftover.split_at(need_align);
        assert(left@ =~= self.leftover@.skip(need_align as int));
        *self = SliceReader { leftover: left, pos: new_pos };
        need_align
    }
}

/// A value that is written as bytes.
pub trait WriteAsBytes {
    /// The bytes of the value.
    spec fn as_bytes(&self) -> Seq<u8>;

    fn write_as_bytes<W: Writer>(&self, dest: &mut W)
        requires
            old(dest).wf(),
            self.as_bytes().len() <= old(dest).room(),
        ensures
            final(dest).wf(),
            final(dest).written() == old(dest).written() + self.as_bytes(),
            final(dest).room() == old(dest).room() - self.as_bytes().len(),
    ;

    /// How many bytes the value takes.
    fn size(&self) -> (r: usize)
        requires
            self.as_bytes().len() <= usize::MAX,
        ensures
            r == self.as_bytes().len(),
    {
        let mut writer = CountingWriter::new();
        self.write_as_bytes(&mut writer);
        writer.count()
    }
}

impl WriteAsBytes for u8 {
    open spec fn as_bytes(&self) -> Seq<u8> {
        seq![*self]
    }

    fn write_as_bytes<W: Writer>(&self, dest: &mut W) {
        let mut b: Vec<u8> = Vec::new();
        b.push(*self);
        assert(b@ =~= self.as_bytes());
        dest.write_bytes(b.as_slice());
    }
}

impl WriteAsBytes for u16 {
    open spec fn as_bytes(&self) -> Seq<u8> {
        le_u16(*self)
    }

    fn write_as_bytes<W: Writer>(&self, dest: &mut W) {
        let mut b: Vec<u8> = Vec::new();
        push_u16(&mut b, *self);
        assert(b@ =~= self.as_bytes());
        dest.write_bytes(b.as_slice());
    }
}

impl WriteAsBytes for u32 {
    open spec fn as_bytes(&self) -> Seq<u8> {
        le_u32(*self)
    }

    fn write_as_bytes<W: Writer>(&self, dest: &mut W) {
        let mut b: Vec<u8> = Vec::new();
        push_u32(&mut b, *self);
        assert(b@ =~= self.as_bytes());
        dest.write_bytes(b.as_slice());
    }
}

impl WriteAsBytes for u64 {
    open spec fn as_bytes(&self) -> Seq<u8> {
        le_u64(*self)
    }

    fn write_as_bytes<W: Writer>(&self, dest: &mut W) {
        let mut b: Vec<u8> = Vec::new();
        push_u64(&mut b, *self);
        assert(b@ =~= self.as_bytes());
        dest.write_bytes(b.as_slice());
    }
}

impl WriteAsBytes for i8 {
    open spec fn as_bytes(&self) -> Seq<u8> {
        seq![*self as u8]
    }

    fn write_as_bytes<W: Writer>(&self, dest: &mut W) {
        let mut b: Vec<u8> = Vec::new();
        b.push(*self as u8);
        assert(b@ =~= self.as_bytes());
        dest.write_bytes(b.as_slice());
    }
}

impl WriteAsBytes for i16 {
    open spec fn as_bytes(&self) -> Seq<u8> {
        le_u16(*self as u16)
    }

    fn write_as_bytes<W: Writer>(&self, dest: &mut W) {
        let mut b: Vec<u8> = Vec::new();
        push_u16(&mut b, *self as u16);
        assert(b@ =~= self.as_bytes());
        dest.write_bytes(b.as_slice());
    }
}

impl WriteAsBytes for i32 {
    open spec fn as_bytes(&self) -> Seq<u8> {
        le_u32(*self as u32)
    }

    fn write_as_bytes<W: Writer>(&self, dest: &mut W) {
        let mut b: Vec<u8> = Vec::new();
        push_u32(&mut b, *self as u32);
        assert(b@ =~= self.as_bytes());
        dest.write_bytes(b.as_slice());
    }
}

impl WriteAsBytes for i64 {
    open spec fn as_bytes(&self) -> Seq<u8> {
        le_u64(*self as u64)
    }

    fn write_as_bytes<W: Writer>(&self, dest: &mut W) {
        let mut b: Vec<u8> = Vec::new();
        push_u64(&mut b, *self as u64);
        assert(b@ =~= self.as_bytes());
        dest.write_bytes(b.as_slice());
    }
}

impl WriteAsBytes for () {
    open spec fn as_bytes(&self) -> Seq<u8> {
        Seq::empty()
    }

    fn write_as_bytes<W: Writer>(&self, dest: &mut W) {
        let b: Vec<u8> = Vec::new();
        assert(b@ =~= self.as_bytes());
        dest.write_bytes(b.as_slice());
    }
}

/// A value that is read from bytes.
pub trait ReadFromBytes<'d>: Sized {
    /// How many bytes a value takes.
    spec fn byte_len() -> nat;

    /// The value that the bytes `b` stand for.
    spec fn from_bytes(b: Seq<u8>) -> Self;

    fn read_from_bytes<R: Reader<'d>>(src: &mut R) -> (r: Self)
        requires
            Self::byte_len() <= old(src).remaining().len(),
        ensures
            r == Self::from_bytes(old(src).remaining().take(Self::byte_len() as int)),
            final(src).remaining() == old(src).remaining().skip(Self::byte_len() as int),
            final(src).consumed() == old(src).consumed() + Self::byte_len(),
    ;
}

impl<'d> ReadFromBytes<'d> for u8 {
    open spec fn byte_len() -> nat {
        1
    }

    open spec fn from_bytes(b: Seq<u8>) -> u8 {
        b[0]
    }

    fn read_from_bytes<R: Reader<'d>>(src: &mut R) -> (r: u8) {
        let b = src.read_bytes(1);
        b[0]
    }
}

impl<'d> ReadFromBytes<'d> for u16 {
    open spec fn byte_len() -> nat {
        2
    }

    open spec fn from_bytes(b: Seq<u8>) -> u16 {
        from_le_u16(b)
    }

    fn read_from_bytes<R: Reader<'d>>(src: &mut R) -> (r: u16) {
        let b = src.read_bytes(2);
        let r = crate::ipc::wire::read_u16(b, 0);
        assert(b@.skip(0) =~= b@);
        r
    }
}

impl<'d> ReadFromBytes<'d> for u32 {
    open spec fn byte_len() -> nat {
        4
    }

    open spec fn from_bytes(b: Seq<u8>) -> u32 {
        from_le_u32(b)
    }

    fn read_from_bytes<R: Reader<'d>>(src: &mut R) -> (r: u32) {
        let b = src.read_bytes(4);
        let r = crate::ipc::wire::read_u32(b, 0);
        assert(b@.skip(0) =~= b@);
        r
    }
}

impl<'d> ReadFromBytes<'d> for u64 {
    open spec fn byte_len() -> nat {
        8
    }

    open spec fn from_bytes(b: Seq<u8>) -> u64 {
        from_le_u64(b)
    }

    fn read_from_bytes<R: Reader<'d>>(src: &mut R) -> (r: u64) {
        let b = src.read_bytes(8);
        let r = crate::ipc::wire::read_u64(b, 0);
        assert(b@.skip(0) =~= b@);
        r
    }
}

/// Reading back what was written gives the value: for every unsigned
/// integer `v`, the bytes of `v` read as `v`.
pub proof fn lemma_write_read_roundtrip(a: u8, b: u16, c: u32, d: u64)
    ensures
        <u8 as ReadFromBytes>::from_bytes(a.as_bytes()) == a,
        <u16 as ReadFromBytes>::from_bytes(b.as_bytes()) == b,
        <u32 as ReadFromBytes>::from_bytes(c.as_bytes()) == c,
        <u64 as ReadFromBytes>::from_bytes(d.as_bytes()) == d,
        a.as_bytes().len() == <u8 as ReadFromBytes>::byte_len(),
        b.as_bytes().len() == <u16 as ReadFromBytes>::byte_len(),
        c.as_bytes().len() == <u32 as ReadFromBytes>::byte_len(),
        d.as_bytes().len() == <u64 as ReadFromBytes>::byte_len(),
{
    lemma_le_u16_roundtrip(b);
    lemma_le_u32_roundtrip(c);
    lemma_le_u64_roundtrip(d);
}

} // verus!
