//! The packed structures that the generated code lays a request and a
//! response out with in the IPC buffer: their fields in order, each with its
//! Rust type, and the Rust text of the structure.

use vstd::prelude::*;
use crate::swipc::codegen::{
    TokensView, TypeTokens, imported, imported_tokens, nominal_tokens, nominal_tokens_spec, plain, plain_tokens,
};
use crate::swipc::model::{BufferTransferMode, Direction, IpcFileItem};
use crate::swipc::layout::layout_depth;
use crate::swipc::text::{decimal, push_bytes, push_decimal};
use crate::swipc::typecheck::IpcFile;
use crate::swipc::wire_format::{
    Buffer, fields_size, lemma_buffers_with_len, lemma_fields_layout_by_view, lemma_sized_count_len, BufferView, CommandWireFormatInfo, HandleInView, HandleOutView, RawInView, RawOutView, WireView, buffers_with,
    fields_size_spec, named_view, raw_in_fields, raw_out_fields, request_sizes_spec, response_sizes_spec,
    sized_count,
};
use vstd::string::StringSliceAdditionalSpecFns;

verus! {

/// A packed structure: its fields, each a name with a Rust type, and its
/// size in bytes.
#[derive(Debug)]
pub struct MessageStruct {
    pub fields: Vec<(Vec<u8>, TypeTokens)>,
    pub size: u64,
}

/// Fields named `prefix` and their index, `count` of them, of one type.
pub open spec fn indexed_fields(prefix: Seq<u8>, count: nat, t: TokensView) -> Seq<(Seq<u8>, TokensView)> {
    Seq::new(count, |i: int| (prefix + decimal(i as nat), t))
}

/// A type of the HIPC wire format.
pub open spec fn hipc_type(item: Seq<u8>) -> TokensView {
    imported("horizon_ipc::raw::hipc".spec_bytes(), item)
}

/// A type of the CMIF wire format.
pub open spec fn cmif_type(item: Seq<u8>) -> TokensView {
    imported("horizon_ipc::raw::cmif".spec_bytes(), item)
}

/// An array of `n` bytes.
pub open spec fn bytes_type(n: nat) -> TokensView {
    plain("[u8; ".spec_bytes() + decimal(n) + "]".spec_bytes())
}

/// The type of the raw input data: nothing, the one value, or the `In`
/// structure that holds them all; `None` where the generator cannot write
/// the one value's type.
pub open spec fn raw_in_type_spec(ns: Seq<Seq<u8>>, raw: Seq<RawInView>) -> Option<TokensView> {
    if raw.len() == 0 {
        Some(plain("()".spec_bytes()))
    } else if raw.len() == 1 {
        if raw[0].pid_placeholder {
            Some(plain("u64".spec_bytes()))
        } else {
            nominal_tokens_spec(ns, raw[0].ty)
        }
    } else {
        Some(plain("In".spec_bytes()))
    }
}

/// The type of the raw output data: nothing, the one value, or the `Out`
/// structure that holds them all.
pub open spec fn raw_out_type_spec(ns: Seq<Seq<u8>>, raw: Seq<RawOutView>) -> Option<TokensView> {
    if raw.len() == 0 {
        Some(plain("()".spec_bytes()))
    } else if raw.len() == 1 {
        nominal_tokens_spec(ns, raw[0].ty)
    } else {
        Some(plain("Out".spec_bytes()))
    }
}

/// A raw handle field for each incoming handle.
pub open spec fn in_handle_fields(hs: Seq<HandleInView>) -> Seq<(Seq<u8>, TokensView)> {
    hs.map_values(|h: HandleInView| ("handle_".spec_bytes() + h.name, imported("horizon_ipc".spec_bytes(), "RawHandle".spec_bytes())))
}

/// A raw handle field for each outgoing handle.
pub open spec fn out_handle_fields(hs: Seq<HandleOutView>) -> Seq<(Seq<u8>, TokensView)> {
    hs.map_values(|h: HandleOutView| ("handle_".spec_bytes() + h.name, imported("horizon_ipc".spec_bytes(), "RawHandle".spec_bytes())))
}

/// A `u16` size field for each of the first `n` outgoing pointer buffers
/// without a fixed size, named by its index among them all.
pub open spec fn size_fields(ob: Seq<BufferView>, n: int) -> Seq<(Seq<u8>, TokensView)>
    decreases n,
{
    if n <= 0 {
        Seq::empty()
    } else if !ob[n - 1].fixed_size {
        size_fields(ob, n - 1).push(("out_pointer_size_".spec_bytes() + decimal((n - 1) as nat), plain("u16".spec_bytes())))
    } else {
        size_fields(ob, n - 1)
    }
}

/// The fields of the request, for a CMIF header at `cmif` and raw data of
/// `raw` bytes and type `raw_ty`: the HIPC header, the special header with
/// the process id placeholder and the handles, the descriptors of incoming
/// pointer, incoming and outgoing map-alias buffers, padding up to the next
/// multiple of 16, the CMIF header, the raw data and its padding to 4 bytes,
/// the rest of the 16 bytes of padding, the sizes of the outgoing pointer
/// buffers without a fixed size (padded to 4 bytes), and the descriptors of
/// the outgoing pointer buffers.
pub open spec fn request_fields_spec(w: WireView, cmif: int, raw: nat, raw_ty: TokensView) -> Seq<(Seq<u8>, TokensView)> {
    request_head_fields(w) + request_desc_fields(w) + data_fields(
        "CmifInHeader".spec_bytes(),
        cmif,
        raw,
        raw_ty,
    ) + request_tail_fields(w)
}

/// The HIPC header and the special header with the process id placeholder
/// and the handles.
pub open spec fn request_head_fields(w: WireView) -> Seq<(Seq<u8>, TokensView)> {
    seq![("hipc".spec_bytes(), hipc_type("HipcHeader".spec_bytes()))] + (if w.should_pass_pid || w.handles_in.len() > 0 {
        seq![("special_header".spec_bytes(), hipc_type("HipcSpecialHeader".spec_bytes()))] + (if w.should_pass_pid {
            seq![("pid_placeholder".spec_bytes(), plain("u64".spec_bytes()))]
        } else {
            Seq::empty()
        }) + in_handle_fields(w.handles_in)
    } else {
        Seq::empty()
    })
}

/// The descriptors of the incoming pointer, incoming map-alias and outgoing
/// map-alias buffers.
pub open spec fn request_desc_fields(w: WireView) -> Seq<(Seq<u8>, TokensView)> {
    let n = w.buffers.len() as int;
    let in_ptr = buffers_with(w.buffers, Direction::In, BufferTransferMode::Pointer, n).len();
    let in_map = buffers_with(w.buffers, Direction::In, BufferTransferMode::MapAlias, n).len();
    let out_map = buffers_with(w.buffers, Direction::Out, BufferTransferMode::MapAlias, n).len();
    indexed_fields("in_pointer_desc_".spec_bytes(), in_ptr, hipc_type("HipcInPointerBufferDescriptor".spec_bytes()))
        + indexed_fields("in_map_alias_desc_".spec_bytes(), in_map, hipc_type("HipcMapAliasBufferDescriptor".spec_bytes()))
        + indexed_fields(
        "out_map_alias_desc_".spec_bytes(),
        out_map,
        hipc_type("HipcMapAliasBufferDescriptor".spec_bytes()),
    )
}

/// Padding up to the next multiple of 16 after `cmif`, the CMIF header
/// `header`, the raw data and its padding to 4 bytes, and the rest of the 16
/// bytes of padding.
pub open spec fn data_fields(header: Seq<u8>, cmif: int, raw: nat, raw_ty: TokensView) -> Seq<(Seq<u8>, TokensView)> {
    let p = (16 - cmif % 16) % 16;
    let q = (4 - raw % 4) % 4;
    seq![
        ("pre_padding".spec_bytes(), bytes_type(p as nat)),
        ("cmif".spec_bytes(), cmif_type(header)),
        ("raw_data".spec_bytes(), raw_ty),
        ("raw_data_word_padding".spec_bytes(), bytes_type(q as nat)),
        ("post_padding".spec_bytes(), bytes_type((16 - p) as nat)),
    ]
}

/// The sizes of the outgoing pointer buffers without a fixed size (padded
/// to 4 bytes) and the descriptors of the outgoing pointer buffers.
pub open spec fn request_tail_fields(w: WireView) -> Seq<(Seq<u8>, TokensView)> {
    let ob = buffers_with(w.buffers, Direction::Out, BufferTransferMode::Pointer, w.buffers.len() as int);
    let sizes = sized_count(ob, ob.len() as int);
    size_fields(ob, ob.len() as int) + (if sizes % 2 != 0 {
        seq![("out_pointer_size_padding".spec_bytes(), plain("u16".spec_bytes()))]
    } else {
        Seq::empty()
    }) + indexed_fields("out_pointer_desc_".spec_bytes(), ob.len(), hipc_type("HipcOutPointerBufferDescriptor".spec_bytes()))
}

/// The fields of the response, for a CMIF header at `cmif` and raw data of
/// `raw` bytes and type `raw_ty`: the HIPC header, the special header with
/// the handles, the descriptors of the pointer buffers the server sends,
/// padding up to the next multiple of 16, the CMIF header, the raw data and
/// its padding to 4 bytes, and the rest of the 16 bytes of padding.
pub open spec fn response_fields_spec(w: WireView, cmif: int, raw: nat, raw_ty: TokensView) -> Seq<(Seq<u8>, TokensView)> {
    let out_ptr = buffers_with(w.buffers, Direction::Out, BufferTransferMode::Pointer, w.buffers.len() as int).len();
    seq![("hipc".spec_bytes(), hipc_type("HipcHeader".spec_bytes()))] + (if w.handles_out.len() > 0 {
        seq![("special_header".spec_bytes(), hipc_type("HipcSpecialHeader".spec_bytes()))] + out_handle_fields(
            w.handles_out,
        )
    } else {
        Seq::empty()
    }) + indexed_fields("in_pointer_desc_".spec_bytes(), out_ptr, hipc_type("HipcInPointerBufferDescriptor".spec_bytes()))
        + data_fields("CmifOutHeader".spec_bytes(), cmif, raw, raw_ty)
}

/// The fields of a structure, one per line.
pub open spec fn fields_text(fs: Seq<(Seq<u8>, TokensView)>) -> Seq<u8>
    decreases fs.len(),
{
    if fs.len() == 0 {
        Seq::empty()
    } else {
        fields_text(fs.drop_last()) + "    ".spec_bytes() + fs.last().0 + ": ".spec_bytes() + fs.last().1.text
            + ",\n".spec_bytes()
    }
}

/// A packed structure named `name`, followed by the statement that checks
/// its size when the generated code is compiled.
pub open spec fn packed_struct_text(name: Seq<u8>, fs: Seq<(Seq<u8>, TokensView)>, size: nat) -> Seq<u8> {
    "#[repr(packed)]\nstruct ".spec_bytes() + name + " {\n".spec_bytes() + fields_text(fs)
        + "}\n// Compiler time request size check\nlet _ = ::core::mem::transmute::<".spec_bytes() + name
        + ", [u8; ".spec_bytes() + decimal(size) + "]>;\n".spec_bytes()
}

/// Append a field.
fn push_field(out: &mut Vec<(Vec<u8>, TypeTokens)>, name: Vec<u8>, t: TypeTokens)
    ensures
        named_view(final(out)@) == named_view(old(out)@).push((name@, t@)),
{
    let ghost o = old(out)@;
    out.push((name, t));
    assert(named_view(out@) =~= named_view(o).push((name@, t@)));
}

/// A field with a literal name.
fn field_name(s: &str) -> (r: Vec<u8>)
    ensures
        r@ == s.spec_bytes(),
{
    let mut r: Vec<u8> = Vec::new();
    push_bytes(&mut r, s.as_bytes());
    r
}

/// The tokens of an array of `n` bytes.
fn bytes_tokens(n: u64) -> (r: TypeTokens)
    ensures
        r@ == bytes_type(n as nat),
{
    let mut text: Vec<u8> = Vec::new();
    push_bytes(&mut text, "[u8; ".as_bytes());
    push_decimal(&mut text, n);
    push_bytes(&mut text, "]".as_bytes());
    TypeTokens { text, import: None }
}

/// Append `count` fields named `prefix` and their index, of an imported type.
fn push_indexed(out: &mut Vec<(Vec<u8>, TypeTokens)>, prefix: &str, count: usize, path: &str, item: &str)
    ensures
        named_view(final(out)@) == named_view(old(out)@) + indexed_fields(
            prefix.spec_bytes(),
            count as nat,
            imported(path.spec_bytes(), item.spec_bytes()),
        ),
{
    let ghost o = named_view(old(out)@);
    let ghost t = imported(path.spec_bytes(), item.spec_bytes());
    let mut i: usize = 0;
    while i < count
        invariant
            i <= count,
            t == imported(path.spec_bytes(), item.spec_bytes()),
            o == named_view(old(out)@),
            named_view(out@) == o + indexed_fields(prefix.spec_bytes(), i as nat, t),
        decreases count - i,
    {
        let mut name: Vec<u8> = Vec::new();
        push_bytes(&mut name, prefix.as_bytes());
        push_decimal(&mut name, i as u64);
        let tk = imported_tokens(path, item);
        assert(name@ =~= prefix.spec_bytes() + decimal(i as nat));
        assert(tk@ == t);
        let ghost before = named_view(out@);
        push_field(out, name, tk);
        assert(before == o + indexed_fields(prefix.spec_bytes(), i as nat, t));
        assert(indexed_fields(prefix.spec_bytes(), (i + 1) as nat, t) =~= indexed_fields(prefix.spec_bytes(), i as nat, t).push(
            (prefix.spec_bytes() + decimal(i as nat), t),
        ));
        assert(named_view(out@) =~= o + indexed_fields(prefix.spec_bytes(), (i + 1) as nat, t));
        i = i + 1;
    }
}

/// Append the padding, CMIF header and raw data fields.
fn push_data_fields(out: &mut Vec<(Vec<u8>, TypeTokens)>, header: &str, cmif: u64, raw: u64, raw_ty: TypeTokens)
    ensures
        named_view(final(out)@) == named_view(old(out)@) + data_fields(header.spec_bytes(), cmif as int, raw as nat, raw_ty@),
{
    let ghost o = named_view(out@);
    let ghost rt = raw_ty@;
    let p: u64 = (16 - cmif % 16) % 16;
    let q: u64 = (4 - raw % 4) % 4;
    push_field(out, field_name("pre_padding"), bytes_tokens(p));
    push_field(out, field_name("cmif"), imported_tokens("horizon_ipc::raw::cmif", header));
    push_field(out, field_name("raw_data"), raw_ty);
    push_field(out, field_name("raw_data_word_padding"), bytes_tokens(q));
    push_field(out, field_name("post_padding"), bytes_tokens(16 - p));
    assert(named_view(out@) =~= o + data_fields(header.spec_bytes(), cmif as int, raw as nat, rt));
}

impl CommandWireFormatInfo {
    /// The type of the raw input data in the module of namespace `namespace`.
    fn raw_in_type(&self, namespace: &Vec<Vec<u8>>) -> (r: Option<TypeTokens>)
        ensures
            match raw_in_type_spec(namespace@.map_values(|p: Vec<u8>| p@), self@.raw_data_in) {
                Some(v) => r matches Some(t) && t@ == v,
                None => r is None,
            },
    {
        if self.raw_data_in.len() == 0 {
            Some(plain_tokens("()"))
        } else if self.raw_data_in.len() == 1 {
            if self.raw_data_in[0].pid_placeholder {
                Some(plain_tokens("u64"))
            } else {
                nominal_tokens(namespace, &self.raw_data_in[0].ty)
            }
        } else {
            Some(plain_tokens("In"))
        }
    }

    /// The type of the raw output data in the module of namespace `namespace`.
    fn raw_out_type(&self, namespace: &Vec<Vec<u8>>) -> (r: Option<TypeTokens>)
        ensures
            match raw_out_type_spec(namespace@.map_values(|p: Vec<u8>| p@), self@.raw_data_out) {
                Some(v) => r matches Some(t) && t@ == v,
                None => r is None,
            },
    {
        if self.raw_data_out.len() == 0 {
            Some(plain_tokens("()"))
        } else if self.raw_data_out.len() == 1 {
            nominal_tokens(namespace, &self.raw_data_out[0].ty)
        } else {
            Some(plain_tokens("Out"))
        }
    }

    /// Append a raw handle field for each incoming handle.
    fn push_in_handles(&self, out: &mut Vec<(Vec<u8>, TypeTokens)>)
        ensures
            named_view(final(out)@) == named_view(old(out)@) + in_handle_fields(self@.handles_in),
    {
        let ghost o = named_view(old(out)@);
        let mut i: usize = 0;
        while i < self.handles_in.len()
            invariant
                i <= self@.handles_in.len(),
                o == named_view(old(out)@),
                named_view(out@) == o + in_handle_fields(self@.handles_in.take(i as int)),
            decreases self@.handles_in.len() - i,
        {
            let mut name = field_name("handle_");
            push_bytes(&mut name, self.handles_in[i].name.as_slice());
            push_field(out, name, imported_tokens("horizon_ipc", "RawHandle"));
            assert(in_handle_fields(self@.handles_in.take(i + 1)) =~= in_handle_fields(self@.handles_in.take(i as int)).push(
                ("handle_".spec_bytes() + self@.handles_in[i as int].name, imported("horizon_ipc".spec_bytes(), "RawHandle".spec_bytes())),
            ));
            i = i + 1;
        }
        assert(self@.handles_in.take(self@.handles_in.len() as int) =~= self@.handles_in);
    }

    /// Append a raw handle field for each outgoing handle.
    fn push_out_handles(&self, out: &mut Vec<(Vec<u8>, TypeTokens)>)
        ensures
            named_view(final(out)@) == named_view(old(out)@) + out_handle_fields(self@.handles_out),
    {
        let ghost o = named_view(old(out)@);
        let mut i: usize = 0;
        while i < self.handles_out.len()
            invariant
                i <= self@.handles_out.len(),
                o == named_view(old(out)@),
                named_view(out@) == o + out_handle_fields(self@.handles_out.take(i as int)),
            decreases self@.handles_out.len() - i,
        {
            let mut name = field_name("handle_");
            push_bytes(&mut name, self.handles_out[i].name.as_slice());
            push_field(out, name, imported_tokens("horizon_ipc", "RawHandle"));
            assert(out_handle_fields(self@.handles_out.take(i + 1)) =~= out_handle_fields(self@.handles_out.take(i as int)).push(
                ("handle_".spec_bytes() + self@.handles_out[i as int].name, imported("horizon_ipc".spec_bytes(), "RawHandle".spec_bytes())),
            ));
            i = i + 1;
        }
        assert(self@.handles_out.take(self@.handles_out.len() as int) =~= self@.handles_out);
    }

    /// Append the size fields of the outgoing pointer buffers `ob`.
    fn push_size_fields(out: &mut Vec<(Vec<u8>, TypeTokens)>, ob: &Vec<Buffer>)
        ensures
            named_view(final(out)@) == named_view(old(out)@) + size_fields(
                ob@.map_values(|b: Buffer| b@),
                ob@.len() as int,
            ),
    {
        let ghost o = named_view(old(out)@);
        let ghost obv = ob@.map_values(|b: Buffer| b@);
        let mut i: usize = 0;
        while i < ob.len()
            invariant
                i <= ob@.len(),
                obv == ob@.map_values(|b: Buffer| b@),
                o == named_view(old(out)@),
                named_view(out@) == o + size_fields(obv, i as int),
            decreases ob@.len() - i,
        {
            if !ob[i].fixed_size {
                let mut name = field_name("out_pointer_size_");
                push_decimal(&mut name, i as u64);
                push_field(out, name, plain_tokens("u16"));
                assert(named_view(out@) =~= o + size_fields(obv, i + 1));
            } else {
                assert(size_fields(obv, i + 1) == size_fields(obv, i as int));
            }
            i = i + 1;
        }
    }

    /// Append the HIPC header and the special header fields.
    fn push_request_head(&self, out: &mut Vec<(Vec<u8>, TypeTokens)>)
        ensures
            named_view(final(out)@) == named_view(old(out)@) + request_head_fields(self@),
    {
        let ghost o = named_view(out@);
        push_field(out, field_name("hipc"), imported_tokens("horizon_ipc::raw::hipc", "HipcHeader"));
        if self.has_in_special_header() {
            push_field(out, field_name("special_header"), imported_tokens("horizon_ipc::raw::hipc", "HipcSpecialHeader"));
            if self.should_pass_pid {
                push_field(out, field_name("pid_placeholder"), plain_tokens("u64"));
            }
            self.push_in_handles(out);
        }
        assert(named_view(out@) =~= o + request_head_fields(self@));
    }

    /// Append the descriptors of the incoming pointer and of the map-alias
    /// buffers.
    fn push_request_descs(&self, out: &mut Vec<(Vec<u8>, TypeTokens)>)
        ensures
            named_view(final(out)@) == named_view(old(out)@) + request_desc_fields(self@),
    {
        let ghost o = named_view(out@);
        let in_ptr = self.in_pointer_buffers().len();
        let in_map = self.in_map_alias_buffers().len();
        let out_map = self.out_map_alias_buffers().len();
        push_indexed(out, "in_pointer_desc_", in_ptr, "horizon_ipc::raw::hipc", "HipcInPointerBufferDescriptor");
        push_indexed(out, "in_map_alias_desc_", in_map, "horizon_ipc::raw::hipc", "HipcMapAliasBufferDescriptor");
        push_indexed(out, "out_map_alias_desc_", out_map, "horizon_ipc::raw::hipc", "HipcMapAliasBufferDescriptor");
        assert(named_view(out@) =~= o + request_desc_fields(self@));
    }

    /// Append the sizes and the descriptors of the outgoing pointer buffers.
    fn push_request_tail(&self, out: &mut Vec<(Vec<u8>, TypeTokens)>)
        ensures
            named_view(final(out)@) == named_view(old(out)@) + request_tail_fields(self@),
    {
        let ghost o = named_view(out@);
        let ob = self.out_pointer_buffers();
        let n_sizes = self.out_pointer_sizes_count();
        Self::push_size_fields(out, &ob);
        if n_sizes % 2 != 0 {
            push_field(out, field_name("out_pointer_size_padding"), plain_tokens("u16"));
        }
        push_indexed(out, "out_pointer_desc_", ob.len(), "horizon_ipc::raw::hipc", "HipcOutPointerBufferDescriptor");
        assert(named_view(out@) =~= o + request_tail_fields(self@));
    }

    /// The packed structure of the request in the module of namespace
    /// `namespace`: `None` for a domain, where the raw data has no layout or
    /// its type cannot be written, or where the request does not fit in the
    /// 0x100 bytes of the IPC buffer.
    pub fn request_struct(&self, namespace: &Vec<Vec<u8>>, file: &IpcFile) -> (r: Option<MessageStruct>)
        requires
            self.buffers@.len() <= 8,
            self.handles_in@.len() <= 8,
        ensures
            match (
                fields_size_spec(file.items_spec(), raw_in_fields(self.raw_data_in@)),
                raw_in_type_spec(namespace@.map_values(|p: Vec<u8>| p@), self@.raw_data_in),
            ) {
                (Some(raw), Some(rt)) => {
                    let (cmif, data, total) = request_sizes_spec(self@, raw);
                    if !self.is_domain && raw + 1024 <= u64::MAX && total <= 0x100 {
                        r matches Some(m) && named_view(m.fields@) == request_fields_spec(self@, cmif, raw, rt)
                            && m.size == total
                    } else {
                        r is None
                    }
                },
                _ => r is None,
            },
    {
        if self.is_domain {
            return None;
        }
        let fields = self.raw_in_struct_fields();
        proof {
            lemma_fields_layout_by_view(file.items_spec(), fields@, raw_in_fields(self.raw_data_in@), fields@.len() as int, layout_depth());
        }
        let raw = match fields_size(file, fields) {
            Some(raw) => raw,
            None => {
                return None;
            },
        };
        let sizes = match self.request_sizes(file) {
            Some(s) => s,
            None => {
                return None;
            },
        };
        if sizes.message_size > 0x100 {
            return None;
        }
        let raw_ty = match self.raw_in_type(namespace) {
            Some(t) => t,
            None => {
                return None;
            },
        };
        let ghost rt = raw_ty@;
        let mut out: Vec<(Vec<u8>, TypeTokens)> = Vec::new();
        assert(named_view(out@) =~= Seq::empty());
        self.push_request_head(&mut out);
        self.push_request_descs(&mut out);
        push_data_fields(&mut out, "CmifInHeader", sizes.cmif_header_offset, raw, raw_ty);
        self.push_request_tail(&mut out);
        assert(named_view(out@) =~= request_fields_spec(self@, sizes.cmif_header_offset as int, raw as nat, rt));
        Some(MessageStruct { fields: out, size: sizes.message_size })
    }
    /// The packed structure of the response in the module of namespace
    /// `namespace`: `None` for a domain, where the raw output data has no
    /// layout or its type cannot be written, or where the response does not
    /// fit in the 0x100 bytes of the IPC buffer.
    pub fn response_struct(&self, namespace: &Vec<Vec<u8>>, file: &IpcFile) -> (r: Option<MessageStruct>)
        requires
            self.buffers@.len() <= 8,
            self.handles_out@.len() <= 8,
        ensures
            match (
                fields_size_spec(file.items_spec(), raw_out_fields(self.raw_data_out@)),
                raw_out_type_spec(namespace@.map_values(|p: Vec<u8>| p@), self@.raw_data_out),
            ) {
                (Some(raw), Some(rt)) => {
                    let (cmif, data, total, alt) = response_sizes_spec(self@, raw);
                    if !self.is_domain && raw + 1024 <= u64::MAX && total <= 0x100 {
                        r matches Some(m) && named_view(m.fields@) == response_fields_spec(self@, cmif, raw, rt)
                            && m.size == total
                    } else {
                        r is None
                    }
                },
                _ => r is None,
            },
    {
        if self.is_domain {
            return None;
        }
        let fields = self.raw_out_struct_fields();
        proof {
            lemma_fields_layout_by_view(file.items_spec(), fields@, raw_out_fields(self.raw_data_out@), fields@.len() as int, layout_depth());
        }
        let raw = match fields_size(file, fields) {
            Some(raw) => raw,
            None => {
                return None;
            },
        };
        let sizes = match self.response_sizes(file) {
            Some(s) => s,
            None => {
                return None;
            },
        };
        if sizes.message_size > 0x100 {
            return None;
        }
        let raw_ty = match self.raw_out_type(namespace) {
            Some(t) => t,
            None => {
                return None;
            },
        };
        let ghost rt = raw_ty@;
        let mut out: Vec<(Vec<u8>, TypeTokens)> = Vec::new();
        assert(named_view(out@) =~= Seq::empty());
        push_field(&mut out, field_name("hipc"), imported_tokens("horizon_ipc::raw::hipc", "HipcHeader"));
        if self.has_out_special_header() {
            push_field(&mut out, field_name("special_header"), imported_tokens("horizon_ipc::raw::hipc", "HipcSpecialHeader"));
            self.push_out_handles(&mut out);
        }
        let out_ptr = self.out_pointer_buffers().len();
        push_indexed(&mut out, "in_pointer_desc_", out_ptr, "horizon_ipc::raw::hipc", "HipcInPointerBufferDescriptor");
        push_data_fields(&mut out, "CmifOutHeader", sizes.cmif_header_offset, raw, raw_ty);
        assert(named_view(out@) =~= response_fields_spec(self@, sizes.cmif_header_offset as int, raw as nat, rt));
        Some(MessageStruct { fields: out, size: sizes.message_size })
    }
}

/// The Rust text of a packed structure named `name`, with the statement
/// that checks its size.
pub fn packed_struct(name: &str, s: &MessageStruct) -> (r: Vec<u8>)
    ensures
        r@ == packed_struct_text(name.spec_bytes(), named_view(s.fields@), s.size as nat),
{
    let mut text: Vec<u8> = Vec::new();
    push_bytes(&mut text, "#[repr(packed)]\nstruct ".as_bytes());
    push_bytes(&mut text, name.as_bytes());
    push_bytes(&mut text, " {\n".as_bytes());
    let ghost head = text@;
    let ghost fs = named_view(s.fields@);
    let mut i: usize = 0;
    while i < s.fields.len()
        invariant
            i <= s.fields@.len(),
            fs == named_view(s.fields@),
            text@ == head + fields_text(fs.take(i as int)),
        decreases s.fields@.len() - i,
    {
        assert(fs.take(i + 1).drop_last() =~= fs.take(i as int));
        push_bytes(&mut text, "    ".as_bytes());
        push_bytes(&mut text, s.fields[i].0.as_slice());
        push_bytes(&mut text, ": ".as_bytes());
        push_bytes(&mut text, s.fields[i].1.text.as_slice());
        push_bytes(&mut text, ",\n".as_bytes());
        i = i + 1;
    }
    assert(fs.take(fs.len() as int) =~= fs);
    push_bytes(&mut text, "}\n// Compiler time request size check\nlet _ = ::core::mem::transmute::<".as_bytes());
    push_bytes(&mut text, name.as_bytes());
    push_bytes(&mut text, ", [u8; ".as_bytes());
    push_decimal(&mut text, s.size);
    push_bytes(&mut text, "]>;\n".as_bytes());
    text
}

} // verus!
