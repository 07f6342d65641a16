//! The value the generated code fills the request structure with: each
//! field with the Rust expression that initialises it, and the expressions
//! that describe a buffer to the kernel.

use vstd::prelude::*;
use crate::swipc::model::{BufferExtraAttrs, BufferTransferMode, Direction, HandleTransferType};
use crate::swipc::text::{decimal, push_bytes, push_decimal};
use crate::swipc::wire_format::{
    Buffer, BufferSource, BufferView, CommandWireFormatInfo, HandleIn, HandleInView, WireView, buffers_with,
    handles_by, lemma_buffers_with_len, sized_count,
};
use vstd::string::StringSliceAdditionalSpecFns;

verus! {

/// Which kind of descriptor a buffer is sent with.
#[derive(Clone, Copy, PartialEq, Eq, Debug, Structural)]
pub enum DescriptorType {
    MapAlias,
    InPointer,
    OutPointer,
}

/// A field of a structure literal: the field's name and the expression it
/// is set to.
pub open spec fn inits_view(v: Seq<(Vec<u8>, Vec<u8>)>) -> Seq<(Seq<u8>, Seq<u8>)> {
    v.map_values(|p: (Vec<u8>, Vec<u8>)| (p.0@, p.1@))
}

/// `true` or `false`.
pub open spec fn bool_text(b: bool) -> Seq<u8> {
    if b {
        "true".spec_bytes()
    } else {
        "false".spec_bytes()
    }
}

/// The address of a buffer, as a `usize`.
pub open spec fn buffer_addr(b: BufferView) -> Seq<u8> {
    match b.source {
        BufferSource::TypedReference => b.name + " as *const _ as usize".spec_bytes(),
        _ => b.name + ".as_ptr() as usize".spec_bytes(),
    }
}

/// The size of a buffer in bytes.
pub open spec fn buffer_size(b: BufferView) -> Seq<u8> {
    match b.source {
        BufferSource::TypedUninitVariable => "::core::mem::size_of_val(&".spec_bytes() + b.name + ")".spec_bytes(),
        _ => "::core::mem::size_of_val(".spec_bytes() + b.name + ")".spec_bytes(),
    }
}

/// The size of an outgoing pointer buffer, as the `u16` the request holds.
pub open spec fn buffer_size_u16(b: BufferView) -> Seq<u8> {
    buffer_size(b) + " as u16".spec_bytes()
}

/// The map-alias mode of a buffer's extra attributes.
pub open spec fn alias_mode(a: BufferExtraAttrs) -> Seq<u8> {
    match a {
        BufferExtraAttrs::NoAttrs => "MapAliasBufferMode::Normal".spec_bytes(),
        BufferExtraAttrs::AllowNonSecure => "MapAliasBufferMode::NonSecure".spec_bytes(),
        BufferExtraAttrs::AllowNonDevice => "MapAliasBufferMode::NonDevice".spec_bytes(),
    }
}

/// The descriptor of buffer `b`, the `index`-th of its kind. A pointer
/// buffer whose transfer mode is chosen automatically is sent as an empty
/// pointer descriptor.
pub open spec fn buffer_desc_text(ty: DescriptorType, index: nat, b: BufferView) -> Seq<u8> {
    match ty {
        DescriptorType::MapAlias => "HipcMapAliasBufferDescriptor::new(".spec_bytes() + alias_mode(b.extra_attrs)
            + ", ".spec_bytes() + buffer_addr(b) + ", ".spec_bytes() + buffer_size(b) + ")".spec_bytes(),
        DescriptorType::InPointer => if b.transfer_mode == BufferTransferMode::AutoSelect {
            "HipcInPointerBufferDescriptor::new(".spec_bytes() + decimal(index) + ", 0, 0)".spec_bytes()
        } else {
            "HipcInPointerBufferDescriptor::new(".spec_bytes() + decimal(index) + ", ".spec_bytes() + buffer_addr(b)
                + ", ".spec_bytes() + buffer_size(b) + ")".spec_bytes()
        },
        DescriptorType::OutPointer => if b.transfer_mode == BufferTransferMode::AutoSelect {
            "HipcOutPointerBufferDescriptor::new(0, 0)".spec_bytes()
        } else {
            "HipcOutPointerBufferDescriptor::new(".spec_bytes() + buffer_addr(b) + ", ".spec_bytes() + buffer_size(b)
                + ")".spec_bytes()
        },
    }
}

/// The descriptor fields named `prefix` and their index, one per buffer.
pub open spec fn desc_inits(prefix: Seq<u8>, ty: DescriptorType, bs: Seq<BufferView>) -> Seq<(Seq<u8>, Seq<u8>)> {
    Seq::new(bs.len(), |i: int| (prefix + decimal(i as nat), buffer_desc_text(ty, i as nat, bs[i])))
}

/// The size fields of the first `n` outgoing pointer buffers without a
/// fixed size.
pub open spec fn size_inits(ob: Seq<BufferView>, n: int) -> Seq<(Seq<u8>, Seq<u8>)>
    decreases n,
{
    if n <= 0 {
        Seq::empty()
    } else if !ob[n - 1].fixed_size {
        size_inits(ob, n - 1).push(("out_pointer_size_".spec_bytes() + decimal((n - 1) as nat), buffer_size_u16(ob[n - 1])))
    } else {
        size_inits(ob, n - 1)
    }
}

/// The handle fields, each set to the handle of the same name.
pub open spec fn handle_inits(hs: Seq<HandleInView>) -> Seq<(Seq<u8>, Seq<u8>)> {
    hs.map_values(|h: HandleInView| ("handle_".spec_bytes() + h.name, h.name))
}

/// The number of `C` descriptors the HIPC header announces: none, or two
/// more than the outgoing pointer buffers.
pub open spec fn out_pointer_mode(n_out_pointers: nat) -> nat {
    if n_out_pointers == 0 {
        0
    } else {
        2 + n_out_pointers
    }
}

/// The HIPC header and the special header with the process id placeholder
/// and the handles, for a data section of `data_size` bytes.
pub open spec fn request_head_inits(w: WireView, data_size: nat) -> Seq<(Seq<u8>, Seq<u8>)> {
    let n = w.buffers.len() as int;
    let in_ptr = buffers_with(w.buffers, Direction::In, BufferTransferMode::Pointer, n).len();
    let out_ptr = buffers_with(w.buffers, Direction::Out, BufferTransferMode::Pointer, n).len();
    let in_map = buffers_with(w.buffers, Direction::In, BufferTransferMode::MapAlias, n).len();
    let out_map = buffers_with(w.buffers, Direction::Out, BufferTransferMode::MapAlias, n).len();
    let special = w.should_pass_pid || w.handles_in.len() > 0;
    let kinds = w.handles_in.map_values(|h: HandleInView| h.transfer_type);
    let hipc = "HipcHeader::new(CommandType::Request, ".spec_bytes() + decimal(in_ptr) + ", ".spec_bytes() + decimal(in_map)
        + ", ".spec_bytes() + decimal(out_map) + ", 0, ".spec_bytes() + decimal(data_size / 4) + ", ".spec_bytes()
        + decimal(out_pointer_mode(out_ptr)) + ", 0, ".spec_bytes() + bool_text(special) + ")".spec_bytes();
    seq![("hipc".spec_bytes(), hipc)] + (if special {
        seq![(
            "special_header".spec_bytes(),
            "HipcSpecialHeader::new(".spec_bytes() + bool_text(w.should_pass_pid) + ", ".spec_bytes() + decimal(
                handles_by(kinds, HandleTransferType::Copy, kinds.len() as int),
            ) + ", ".spec_bytes() + decimal(handles_by(kinds, HandleTransferType::Move, kinds.len() as int))
                + ")".spec_bytes(),
        )] + (if w.should_pass_pid {
            seq![("pid_placeholder".spec_bytes(), "0".spec_bytes())]
        } else {
            Seq::empty()
        }) + handle_inits(w.handles_in)
    } else {
        Seq::empty()
    })
}

/// The descriptors of the incoming pointer, incoming map-alias and outgoing
/// map-alias buffers.
pub open spec fn request_desc_inits(w: WireView) -> Seq<(Seq<u8>, Seq<u8>)> {
    let n = w.buffers.len() as int;
    desc_inits(
        "in_pointer_desc_".spec_bytes(),
        DescriptorType::InPointer,
        buffers_with(w.buffers, Direction::In, BufferTransferMode::Pointer, n),
    ) + desc_inits(
        "in_map_alias_desc_".spec_bytes(),
        DescriptorType::MapAlias,
        buffers_with(w.buffers, Direction::In, BufferTransferMode::MapAlias, n),
    ) + desc_inits(
        "out_map_alias_desc_".spec_bytes(),
        DescriptorType::MapAlias,
        buffers_with(w.buffers, Direction::Out, BufferTransferMode::MapAlias, n),
    )
}

/// The paddings, the CMIF header with the command id, and the raw data,
/// which the generated code holds in `data_in`.
pub open spec fn request_data_inits(w: WireView) -> Seq<(Seq<u8>, Seq<u8>)> {
    seq![
        ("pre_padding".spec_bytes(), "Default::default()".spec_bytes()),
        (
            "cmif".spec_bytes(),
            "CmifInHeader { magic: CmifInHeader::MAGIC, version: 1, command_id: ".spec_bytes() + decimal(
                w.command_id as nat,
            ) + ", token: 0 }".spec_bytes(),
        ),
        ("raw_data".spec_bytes(), "data_in".spec_bytes()),
        ("raw_data_word_padding".spec_bytes(), "Default::default()".spec_bytes()),
        ("post_padding".spec_bytes(), "Default::default()".spec_bytes()),
    ]
}

/// The sizes and the descriptors of the outgoing pointer buffers.
pub open spec fn request_tail_inits(w: WireView) -> Seq<(Seq<u8>, Seq<u8>)> {
    let ob = buffers_with(w.buffers, Direction::Out, BufferTransferMode::Pointer, w.buffers.len() as int);
    let sizes = sized_count(ob, ob.len() as int);
    size_inits(ob, ob.len() as int) + (if sizes % 2 != 0 {
        seq![("out_pointer_size_padding".spec_bytes(), "0".spec_bytes())]
    } else {
        Seq::empty()
    }) + desc_inits("out_pointer_desc_".spec_bytes(), DescriptorType::OutPointer, ob)
}

/// Each field of the request structure with the expression that sets it,
/// for a data section of `data_size` bytes.
pub open spec fn request_init_spec(w: WireView, data_size: nat) -> Seq<(Seq<u8>, Seq<u8>)> {
    request_head_inits(w, data_size) + request_desc_inits(w) + request_data_inits(w) + request_tail_inits(w)
}

/// The structure literal `Request { .. }` with one field per line.
pub open spec fn request_literal_text(inits: Seq<(Seq<u8>, Seq<u8>)>) -> Seq<u8> {
    "Request {\n".spec_bytes() + inits_text(inits) + "}".spec_bytes()
}

/// Fields of a literal, one per line.
pub open spec fn inits_text(inits: Seq<(Seq<u8>, Seq<u8>)>) -> Seq<u8>
    decreases inits.len(),
{
    if inits.len() == 0 {
        Seq::empty()
    } else {
        inits_text(inits.drop_last()) + "    ".spec_bytes() + inits.last().0 + ": ".spec_bytes() + inits.last().1
            + ",\n".spec_bytes()
    }
}

/// Bytes of a literal text.
fn lit(s: &str) -> (r: Vec<u8>)
    ensures
        r@ == s.spec_bytes(),
{
    let mut r: Vec<u8> = Vec::new();
    push_bytes(&mut r, s.as_bytes());
    r
}

/// Append a field of the literal.
fn push_init(out: &mut Vec<(Vec<u8>, Vec<u8>)>, name: Vec<u8>, value: Vec<u8>)
    ensures
        inits_view(final(out)@) == inits_view(old(out)@).push((name@, value@)),
{
    let ghost o = old(out)@;
    out.push((name, value));
    assert(inits_view(out@) =~= inits_view(o).push((name@, value@)));
}

/// Append the address of a buffer.
fn push_buffer_addr(t: &mut Vec<u8>, b: &Buffer)
    ensures
        final(t)@ == old(t)@ + buffer_addr(b@),
{
    push_bytes(t, b.name.as_slice());
    match b.source {
        BufferSource::TypedReference => push_bytes(t, " as *const _ as usize".as_bytes()),
        _ => push_bytes(t, ".as_ptr() as usize".as_bytes()),
    }
}

/// Append the size of a buffer.
fn push_buffer_size(t: &mut Vec<u8>, b: &Buffer)
    ensures
        final(t)@ == old(t)@ + buffer_size(b@),
{
    match b.source {
        BufferSource::TypedUninitVariable => push_bytes(t, "::core::mem::size_of_val(&".as_bytes()),
        _ => push_bytes(t, "::core::mem::size_of_val(".as_bytes()),
    }
    push_bytes(t, b.name.as_slice());
    push_bytes(t, ")".as_bytes());
}

/// The descriptor of buffer `b`, the `index`-th of its kind.
pub fn make_buffer_desc(ty: DescriptorType, index: usize, b: &Buffer) -> (r: Vec<u8>)
    ensures
        r@ == buffer_desc_text(ty, index as nat, b@),
{
    let mut t: Vec<u8> = Vec::new();
    match ty {
        DescriptorType::MapAlias => {
            push_bytes(&mut t, "HipcMapAliasBufferDescriptor::new(".as_bytes());
            match b.extra_attrs {
                BufferExtraAttrs::NoAttrs => push_bytes(&mut t, "MapAliasBufferMode::Normal".as_bytes()),
                BufferExtraAttrs::AllowNonSecure => push_bytes(&mut t, "MapAliasBufferMode::NonSecure".as_bytes()),
                BufferExtraAttrs::AllowNonDevice => push_bytes(&mut t, "MapAliasBufferMode::NonDevice".as_bytes()),
            }
            push_bytes(&mut t, ", ".as_bytes());
            push_buffer_addr(&mut t, b);
            push_bytes(&mut t, ", ".as_bytes());
            push_buffer_size(&mut t, b);
            push_bytes(&mut t, ")".as_bytes());
        },
        DescriptorType::InPointer => {
            push_bytes(&mut t, "HipcInPointerBufferDescriptor::new(".as_bytes());
            push_decimal(&mut t, index as u64);
            if b.transfer_mode == BufferTransferMode::AutoSelect {
                push_bytes(&mut t, ", 0, 0)".as_bytes());
            } else {
                push_bytes(&mut t, ", ".as_bytes());
                push_buffer_addr(&mut t, b);
                push_bytes(&mut t, ", ".as_bytes());
                push_buffer_size(&mut t, b);
                push_bytes(&mut t, ")".as_bytes());
            }
        },
        DescriptorType::OutPointer => {
            if b.transfer_mode == BufferTransferMode::AutoSelect {
                push_bytes(&mut t, "HipcOutPointerBufferDescriptor::new(0, 0)".as_bytes());
            } else {
                push_bytes(&mut t, "HipcOutPointerBufferDescriptor::new(".as_bytes());
                push_buffer_addr(&mut t, b);
                push_bytes(&mut t, ", ".as_bytes());
                push_buffer_size(&mut t, b);
                push_bytes(&mut t, ")".as_bytes());
            }
        },
    }
    t
}

/// The size of an outgoing pointer buffer, as the `u16` the request holds.
pub fn make_buffer_size(b: &Buffer) -> (r: Vec<u8>)
    ensures
        r@ == buffer_size_u16(b@),
{
    let mut t: Vec<u8> = Vec::new();
    push_buffer_size(&mut t, b);
    push_bytes(&mut t, " as u16".as_bytes());
    t
}

/// Append a descriptor field for each of `bs`.
fn push_desc_inits(out: &mut Vec<(Vec<u8>, Vec<u8>)>, prefix: &str, ty: DescriptorType, bs: &Vec<Buffer>)
    ensures
        inits_view(final(out)@) == inits_view(old(out)@) + desc_inits(
            prefix.spec_bytes(),
            ty,
            bs@.map_values(|b: Buffer| b@),
        ),
{
    let ghost o = inits_view(old(out)@);
    let ghost bv = bs@.map_values(|b: Buffer| b@);
    let mut i: usize = 0;
    while i < bs.len()
        invariant
            i <= bs@.len(),
            o == inits_view(old(out)@),
            bv == bs@.map_values(|b: Buffer| b@),
            inits_view(out@) == o + desc_inits(prefix.spec_bytes(), ty, bv.take(i as int)),
        decreases bs@.len() - i,
    {
        let mut name = lit(prefix);
        push_decimal(&mut name, i as u64);
        let value = make_buffer_desc(ty, i, &bs[i]);
        push_init(out, name, value);
        assert(desc_inits(prefix.spec_bytes(), ty, bv.take(i + 1)) =~= desc_inits(prefix.spec_bytes(), ty, bv.take(i as int)).push(
            (prefix.spec_bytes() + decimal(i as nat), buffer_desc_text(ty, i as nat, bv[i as int])),
        ));
        assert(inits_view(out@) =~= o + desc_inits(prefix.spec_bytes(), ty, bv.take(i + 1)));
        i = i + 1;
    }
    assert(bv.take(bv.len() as int) =~= bv);
}

/// Append `true` or `false`.
fn push_bool(t: &mut Vec<u8>, b: bool)
    ensures
        final(t)@ == old(t)@ + bool_text(b),
{
    if b {
        push_bytes(t, "true".as_bytes());
    } else {
        push_bytes(t, "false".as_bytes());
    }
}

impl CommandWireFormatInfo {
    /// Append the HIPC header and the special header fields.
    fn push_head_inits(&self, out: &mut Vec<(Vec<u8>, Vec<u8>)>, data_size: u64)
        requires
            self.buffers@.len() <= 8,
        ensures
            inits_view(final(out)@) == inits_view(old(out)@) + request_head_inits(self@, data_size as nat),
    {
        let ghost o = inits_view(out@);
        let in_ptr = self.in_pointer_buffers().len();
        let out_ptr = self.out_pointer_buffers().len();
        let in_map = self.in_map_alias_buffers().len();
        let out_map = self.out_map_alias_buffers().len();
        proof {
            lemma_buffers_with_len(self@.buffers, Direction::Out, BufferTransferMode::Pointer, self@.buffers.len() as int);
        }
        let mode: u64 = if out_ptr == 0 { 0 } else { 2 + out_ptr as u64 };
        let special = self.has_in_special_header();
        let mut hipc = lit("HipcHeader::new(CommandType::Request, ");
        push_decimal(&mut hipc, in_ptr as u64);
        push_bytes(&mut hipc, ", ".as_bytes());
        push_decimal(&mut hipc, in_map as u64);
        push_bytes(&mut hipc, ", ".as_bytes());
        push_decimal(&mut hipc, out_map as u64);
        push_bytes(&mut hipc, ", 0, ".as_bytes());
        push_decimal(&mut hipc, data_size / 4);
        push_bytes(&mut hipc, ", ".as_bytes());
        push_decimal(&mut hipc, mode);
        push_bytes(&mut hipc, ", 0, ".as_bytes());
        push_bool(&mut hipc, special);
        push_bytes(&mut hipc, ")".as_bytes());
        push_init(out, lit("hipc"), hipc);
        if special {
            let mut sh = lit("HipcSpecialHeader::new(");
            push_bool(&mut sh, self.should_pass_pid);
            push_bytes(&mut sh, ", ".as_bytes());
            push_decimal(&mut sh, self.in_copy_handles() as u64);
            push_bytes(&mut sh, ", ".as_bytes());
            push_decimal(&mut sh, self.in_move_handles() as u64);
            push_bytes(&mut sh, ")".as_bytes());
            push_init(out, lit("special_header"), sh);
            if self.should_pass_pid {
                push_init(out, lit("pid_placeholder"), lit("0"));
            }
            let ghost s2 = inits_view(out@);
            let mut i: usize = 0;
            while i < self.handles_in.len()
                invariant
                    i <= self@.handles_in.len(),
                    inits_view(out@) == s2 + handle_inits(self@.handles_in.take(i as int)),
                decreases self@.handles_in.len() - i,
            {
                let mut name = lit("handle_");
                push_bytes(&mut name, self.handles_in[i].name.as_slice());
                let mut value: Vec<u8> = Vec::new();
                push_bytes(&mut value, self.handles_in[i].name.as_slice());
                push_init(out, name, value);
                assert(handle_inits(self@.handles_in.take(i + 1)) =~= handle_inits(self@.handles_in.take(i as int)).push(
                    ("handle_".spec_bytes() + self@.handles_in[i as int].name, self@.handles_in[i as int].name),
                ));
                assert(inits_view(out@) =~= s2 + handle_inits(self@.handles_in.take(i + 1)));
                i = i + 1;
            }
            assert(self@.handles_in.take(self@.handles_in.len() as int) =~= self@.handles_in);
            assert(self.handles_in@.map_values(|h: HandleIn| h.transfer_type) =~= self@.handles_in.map_values(
                |h: HandleInView| h.transfer_type,
            ));
        }
        assert(inits_view(out@) =~= o + request_head_inits(self@, data_size as nat));
    }

    /// Append the descriptors of the incoming pointer and map-alias buffers.
    fn push_desc_part(&self, out: &mut Vec<(Vec<u8>, Vec<u8>)>)
        ensures
            inits_view(final(out)@) == inits_view(old(out)@) + request_desc_inits(self@),
    {
        let ghost o = inits_view(out@);
        let a = self.in_pointer_buffers();
        push_desc_inits(out, "in_pointer_desc_", DescriptorType::InPointer, &a);
        let b = self.in_map_alias_buffers();
        push_desc_inits(out, "in_map_alias_desc_", DescriptorType::MapAlias, &b);
        let c = self.out_map_alias_buffers();
        push_desc_inits(out, "out_map_alias_desc_", DescriptorType::MapAlias, &c);
        assert(inits_view(out@) =~= o + request_desc_inits(self@));
    }

    /// Append the paddings, the CMIF header and the raw data.
    fn push_data_part(&self, out: &mut Vec<(Vec<u8>, Vec<u8>)>)
        ensures
            inits_view(final(out)@) == inits_view(old(out)@) + request_data_inits(self@),
    {
        let ghost o = inits_view(out@);
        push_init(out, lit("pre_padding"), lit("Default::default()"));
        let mut cmif = lit("CmifInHeader { magic: CmifInHeader::MAGIC, version: 1, command_id: ");
        push_decimal(&mut cmif, self.command_id as u64);
        push_bytes(&mut cmif, ", token: 0 }".as_bytes());
        push_init(out, lit("cmif"), cmif);
        push_init(out, lit("raw_data"), lit("data_in"));
        push_init(out, lit("raw_data_word_padding"), lit("Default::default()"));
        push_init(out, lit("post_padding"), lit("Default::default()"));
        assert(inits_view(out@) =~= o + request_data_inits(self@));
    }

    /// Append the sizes and the descriptors of the outgoing pointer buffers.
    fn push_tail_part(&self, out: &mut Vec<(Vec<u8>, Vec<u8>)>)
        ensures
            inits_view(final(out)@) == inits_view(old(out)@) + request_tail_inits(self@),
    {
        let ghost o = inits_view(out@);
        let ob = self.out_pointer_buffers();
        let ghost obv = ob@.map_values(|b: Buffer| b@);
        let mut i: usize = 0;
        while i < ob.len()
            invariant
                i <= ob@.len(),
                obv == ob@.map_values(|b: Buffer| b@),
                inits_view(out@) == o + size_inits(obv, i as int),
            decreases ob@.len() - i,
        {
            if !ob[i].fixed_size {
                let mut name = lit("out_pointer_size_");
                push_decimal(&mut name, i as u64);
                let value = make_buffer_size(&ob[i]);
                push_init(out, name, value);
                assert(inits_view(out@) =~= o + size_inits(obv, i + 1));
            }
            i = i + 1;
        }
        if self.out_pointer_sizes_count() % 2 != 0 {
            push_init(out, lit("out_pointer_size_padding"), lit("0"));
        }
        push_desc_inits(out, "out_pointer_desc_", DescriptorType::OutPointer, &ob);
        assert(inits_view(out@) =~= o + request_tail_inits(self@));
    }

    /// Each field of the request structure with the expression that sets it,
    /// for a data section of `data_size` bytes (see `request_sizes`). The
    /// expressions name the wire types by their bare names, as the fields of
    /// `request_struct` import them, and also `CommandType` and
    /// `MapAliasBufferMode`.
    pub fn request_init(&self, data_size: u64) -> (r: Vec<(Vec<u8>, Vec<u8>)>)
        requires
            self.buffers@.len() <= 8,
        ensures
            inits_view(r@) == request_init_spec(self@, data_size as nat),
    {
        let mut out: Vec<(Vec<u8>, Vec<u8>)> = Vec::new();
        assert(inits_view(out@) =~= Seq::empty());
        self.push_head_inits(&mut out, data_size);
        self.push_desc_part(&mut out);
        self.push_data_part(&mut out);
        self.push_tail_part(&mut out);
        assert(inits_view(out@) =~= request_init_spec(self@, data_size as nat));
        out
    }
}

/// The structure literal `Request { .. }`, one field per line.
pub fn request_literal(inits: &Vec<(Vec<u8>, Vec<u8>)>) -> (r: Vec<u8>)
    ensures
        r@ == request_literal_text(inits_view(inits@)),
{
    let mut t = lit("Request {\n");
    let ghost head = t@;
    let ghost iv = inits_view(inits@);
    let mut i: usize = 0;
    while i < inits.len()
        invariant
            i <= inits@.len(),
            iv == inits_view(inits@),
            t@ == head + inits_text(iv.take(i as int)),
        decreases inits@.len() - i,
    {
        assert(iv.take(i + 1).drop_last() =~= iv.take(i as int));
        push_bytes(&mut t, "    ".as_bytes());
        push_bytes(&mut t, inits[i].0.as_slice());
        push_bytes(&mut t, ": ".as_bytes());
        push_bytes(&mut t, inits[i].1.as_slice());
        push_bytes(&mut t, ",\n".as_bytes());
        i = i + 1;
    }
    assert(iv.take(iv.len() as int) =~= iv);
    push_bytes(&mut t, "}".as_bytes());
    t
}

} // verus!
