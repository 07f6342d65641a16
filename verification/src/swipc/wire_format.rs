//! How the arguments of a command go over the wire: which become raw data,
//! handles or buffers, in what order, and under what names the generated
//! code refers to them.

use vstd::prelude::*;
use crate::swipc::diagnostics::Span;
use crate::swipc::grammar::NominalView;
use crate::swipc::layout::{fields_layout_spec, layout_depth, layout_spec, type_layout_spec};
use crate::swipc::model::{
    ArgValue, BufferExtraAttrs, BufferTransferMode, Command, Direction, HandleTransferType, IdentView, IntType,
    IpcFileItem, NamespacedIdent, NominalType, Struct, StructField, StructuralType,
};
use crate::swipc::codegen::{
    TokensView, TypeTokens, import_in, import_spec, imported, imported_tokens, nominal_tokens, nominal_tokens_spec,
    plain, plain_tokens, wrap_tokens, wrapped,
};
use crate::swipc::text::{copy_bytes, decimal, push_bytes, push_decimal};
use crate::swipc::typecheck::{IpcFile, TypecheckContext, find_interface, resolve_depth, resolve_spec};
use vstd::string::StringSliceAdditionalSpecFns;

verus! {

/// Where the generated code takes a buffer from.
#[derive(Clone, Copy, PartialEq, Eq, Debug, Structural)]
pub enum BufferSource {
    /// A byte slice in scope.
    ByteSlice,
    /// A local `MaybeUninit` of an IPC type, whose reference is taken.
    TypedUninitVariable,
    /// A reference to an IPC type in scope.
    TypedReference,
    /// A slice of an IPC type in scope.
    TypedSlice,
}

/// A buffer argument of a command.
#[derive(Debug)]
pub struct Buffer {
    pub name: Vec<u8>,
    pub source: BufferSource,
    pub direction: Direction,
    pub transfer_mode: BufferTransferMode,
    pub fixed_size: bool,
    pub extra_attrs: BufferExtraAttrs,
}

/// A field of the raw input data: an argument, or the placeholder for the
/// process id that the kernel fills in.
#[derive(Debug)]
pub struct RawDataIn {
    pub name: Vec<u8>,
    pub pid_placeholder: bool,
    pub ty: NominalType,
}

/// A field of the raw output data.
#[derive(Debug)]
pub struct RawDataOut {
    pub name: Vec<u8>,
    pub ty: NominalType,
}

/// A handle sent with the request.
#[derive(Debug)]
pub struct HandleIn {
    pub name: Vec<u8>,
    pub transfer_type: HandleTransferType,
}

/// A handle received with the response: a plain handle, or the session of
/// the named interface.
#[derive(Debug)]
pub struct HandleOut {
    pub name: Vec<u8>,
    pub transfer_type: HandleTransferType,
    pub interface: Option<NamespacedIdent>,
}

/// How a command's arguments go over the wire.
#[derive(Debug)]
pub struct CommandWireFormatInfo {
    pub is_domain: bool,
    pub command_id: u32,
    pub buffers: Vec<Buffer>,
    pub raw_data_in: Vec<RawDataIn>,
    pub raw_data_out: Vec<RawDataOut>,
    pub handles_in: Vec<HandleIn>,
    pub handles_out: Vec<HandleOut>,
    pub should_pass_pid: bool,
}

/// A buffer, by value.
pub struct BufferView {
    pub name: Seq<u8>,
    pub source: BufferSource,
    pub direction: Direction,
    pub transfer_mode: BufferTransferMode,
    pub fixed_size: bool,
    pub extra_attrs: BufferExtraAttrs,
}

/// A raw input field, by value.
pub struct RawInView {
    pub name: Seq<u8>,
    pub pid_placeholder: bool,
    pub ty: NominalView,
}

/// A raw output field, by value.
pub struct RawOutView {
    pub name: Seq<u8>,
    pub ty: NominalView,
}

/// An incoming handle, by value.
pub struct HandleInView {
    pub name: Seq<u8>,
    pub transfer_type: HandleTransferType,
}

/// An outgoing handle, by value.
pub struct HandleOutView {
    pub name: Seq<u8>,
    pub transfer_type: HandleTransferType,
    pub interface: Option<IdentView>,
}

/// The wire format, by value.
pub struct WireView {
    pub is_domain: bool,
    pub command_id: u32,
    pub buffers: Seq<BufferView>,
    pub raw_data_in: Seq<RawInView>,
    pub raw_data_out: Seq<RawOutView>,
    pub handles_in: Seq<HandleInView>,
    pub handles_out: Seq<HandleOutView>,
    pub should_pass_pid: bool,
}

impl View for Buffer {
    type V = BufferView;

    open spec fn view(&self) -> BufferView {
        BufferView {
            name: self.name@,
            source: self.source,
            direction: self.direction,
            transfer_mode: self.transfer_mode,
            fixed_size: self.fixed_size,
            extra_attrs: self.extra_attrs,
        }
    }
}

impl View for RawDataIn {
    type V = RawInView;

    open spec fn view(&self) -> RawInView {
        RawInView { name: self.name@, pid_placeholder: self.pid_placeholder, ty: self.ty@ }
    }
}

impl View for RawDataOut {
    type V = RawOutView;

    open spec fn view(&self) -> RawOutView {
        RawOutView { name: self.name@, ty: self.ty@ }
    }
}

impl View for HandleIn {
    type V = HandleInView;

    open spec fn view(&self) -> HandleInView {
        HandleInView { name: self.name@, transfer_type: self.transfer_type }
    }
}

/// An optional name, by value.
pub open spec fn opt_name(n: Option<NamespacedIdent>) -> Option<IdentView> {
    match n {
        Some(x) => Some(x@),
        None => None,
    }
}

impl View for HandleOut {
    type V = HandleOutView;

    open spec fn view(&self) -> HandleOutView {
        HandleOutView { name: self.name@, transfer_type: self.transfer_type, interface: opt_name(self.interface) }
    }
}

impl View for CommandWireFormatInfo {
    type V = WireView;

    open spec fn view(&self) -> WireView {
        WireView {
            is_domain: self.is_domain,
            command_id: self.command_id,
            buffers: self.buffers@.map_values(|b: Buffer| b@),
            raw_data_in: self.raw_data_in@.map_values(|d: RawDataIn| d@),
            raw_data_out: self.raw_data_out@.map_values(|d: RawDataOut| d@),
            handles_in: self.handles_in@.map_values(|h: HandleIn| h@),
            handles_out: self.handles_out@.map_values(|h: HandleOut| h@),
            should_pass_pid: self.should_pass_pid,
        }
    }
}

// ---------------------------------------------------------------------------
// The specification

/// The name of an argument: its own, or `unnamed_<k>` where `k - 1` arguments
/// of the generated function come before it.
pub open spec fn arg_name(name: Option<Vec<u8>>, n_args: nat) -> Seq<u8> {
    match name {
        Some(n) => n@,
        None => "unnamed_".spec_bytes() + decimal(n_args + 1),
    }
}

/// Whether a resolved type is a structure marked as large data.
pub open spec fn large_struct(items: Seq<IpcFileItem>, t: StructuralType) -> bool {
    match t {
        StructuralType::Struct(k) => k < items.len() && (items[k as int] matches IpcFileItem::StructDef(s)
            && s.is_large_data),
        _ => false,
    }
}

/// The alignment of a written type, when it resolves and has a layout.
pub open spec fn alignment_of(items: Seq<IpcFileItem>, t: NominalType) -> Option<u64> {
    match resolve_spec(items, t, resolve_depth()) {
        Ok(s) => match type_layout_spec(items, s, 16) {
            Some((_, a)) => Some(a),
            None => None,
        },
        Err(_) => None,
    }
}

/// The state of the walk over the arguments: what each list holds so far
/// (the raw data with the alignment it is sorted by), whether the process
/// id is sent, and how many arguments the generated function takes so far.
#[verifier::ext_equal]
pub struct WireState {
    pub buffers: Seq<BufferView>,
    pub raw_in: Seq<(RawInView, u64)>,
    pub raw_out: Seq<(RawOutView, u64)>,
    pub handles_in: Seq<HandleInView>,
    pub handles_out: Seq<HandleOutView>,
    pub pid: bool,
    pub n_args: nat,
}

pub open spec fn empty_state() -> WireState {
    WireState {
        buffers: Seq::empty(),
        raw_in: Seq::empty(),
        raw_out: Seq::empty(),
        handles_in: Seq::empty(),
        handles_out: Seq::empty(),
        pid: false,
        n_args: 0,
    }
}

/// One argument added to the state; `None` where the generator does not
/// handle it: a type that does not resolve or has no layout, a large-data
/// structure passed by value or an array without a transfer mode (whose
/// preferred mode is not implemented), an incoming object, a domain, an
/// outgoing object of unknown or domain interface.
pub open spec fn wire_step(items: Seq<IpcFileItem>, is_domain: bool, st: WireState, arg: (Option<Vec<u8>>, ArgValue)) -> Option<WireState> {
    let name = arg_name(arg.0, st.n_args);
    match arg.1 {
        ArgValue::ClientProcessId => Some(WireState {
            pid: true,
            raw_in: st.raw_in.push((
                RawInView { name: "_pid_placeholder".spec_bytes(), pid_placeholder: true, ty: NominalView::Int(IntType::U64) },
                8,
            )),
            ..st
        }),
        ArgValue::In(t) => match (resolve_spec(items, t, resolve_depth()), alignment_of(items, t)) {
            (Ok(s), Some(a)) => if large_struct(items, s) {
                None
            } else {
                Some(WireState {
                    raw_in: st.raw_in.push((RawInView { name, pid_placeholder: false, ty: t@ }, a)),
                    n_args: st.n_args + 1,
                    ..st
                })
            },
            _ => None,
        },
        ArgValue::Out(t) => match (resolve_spec(items, t, resolve_depth()), alignment_of(items, t)) {
            (Ok(s), Some(a)) => if large_struct(items, s) {
                None
            } else {
                Some(WireState { raw_out: st.raw_out.push((RawOutView { name, ty: t@ }, a)), ..st })
            },
            _ => None,
        },
        ArgValue::InObject(_, _) => None,
        ArgValue::OutObject(n, _) => match n {
            Some(n) => if is_domain {
                None
            } else {
                match find_interface(items, n@) {
                    Some(k) => match items[k] {
                        IpcFileItem::InterfaceDef(i) => if i.is_domain {
                            None
                        } else {
                            Some(WireState {
                                handles_out: st.handles_out.push(
                                    HandleOutView { name, transfer_type: HandleTransferType::Move, interface: Some(n@) },
                                ),
                                ..st
                            })
                        },
                        _ => None,
                    },
                    None => None,
                }
            },
            None => None,
        },
        ArgValue::InHandle(tt) => Some(WireState {
            handles_in: st.handles_in.push(HandleInView { name, transfer_type: tt }),
            n_args: st.n_args + 1,
            ..st
        }),
        ArgValue::OutHandle(tt) => Some(WireState {
            handles_out: st.handles_out.push(HandleOutView { name, transfer_type: tt, interface: None }),
            ..st
        }),
        ArgValue::InArray(t, m) => match (resolve_spec(items, t, resolve_depth()), m) {
            (Ok(s), Some(m)) => Some(WireState {
                buffers: st.buffers.push(BufferView {
                    name,
                    source: BufferSource::TypedSlice,
                    direction: Direction::In,
                    transfer_mode: m,
                    fixed_size: large_struct(items, s),
                    extra_attrs: BufferExtraAttrs::NoAttrs,
                }),
                n_args: st.n_args + 1,
                ..st
            }),
            _ => None,
        },
        ArgValue::OutArray(t, m) => match (resolve_spec(items, t, resolve_depth()), m) {
            (Ok(s), Some(m)) => Some(WireState {
                buffers: st.buffers.push(BufferView {
                    name,
                    source: BufferSource::TypedSlice,
                    direction: Direction::Out,
                    transfer_mode: m,
                    fixed_size: large_struct(items, s),
                    extra_attrs: BufferExtraAttrs::NoAttrs,
                }),
                n_args: st.n_args + 1,
                ..st
            }),
            _ => None,
        },
        ArgValue::InBuffer(m, attrs) => Some(WireState {
            buffers: st.buffers.push(BufferView {
                name,
                source: BufferSource::ByteSlice,
                direction: Direction::In,
                transfer_mode: m,
                fixed_size: false,
                extra_attrs: attrs,
            }),
            n_args: st.n_args + 1,
            ..st
        }),
        ArgValue::OutBuffer(m, attrs) => Some(WireState {
            buffers: st.buffers.push(BufferView {
                name,
                source: BufferSource::ByteSlice,
                direction: Direction::Out,
                transfer_mode: m,
                fixed_size: false,
                extra_attrs: attrs,
            }),
            n_args: st.n_args + 1,
            ..st
        }),
    }
}

/// The state after the first `n` arguments.
pub open spec fn wire_walk(items: Seq<IpcFileItem>, is_domain: bool, args: Seq<(Option<Vec<u8>>, ArgValue)>, n: int) -> Option<WireState>
    decreases n,
{
    if n <= 0 {
        Some(empty_state())
    } else {
        match wire_walk(items, is_domain, args, n - 1) {
            Some(st) => wire_step(items, is_domain, st, args[n - 1]),
            None => None,
        }
    }
}

/// `x` put into `s`, sorted by the keys, after every entry whose key is not
/// larger: one step of a stable sort.
pub open spec fn insert_by_key<T>(s: Seq<(T, u64)>, x: (T, u64)) -> Seq<(T, u64)>
    decreases s.len(),
{
    if s.len() == 0 {
        seq![x]
    } else if x.1 < s[0].1 {
        seq![x] + s
    } else {
        seq![s[0]] + insert_by_key(s.drop_first(), x)
    }
}

/// `s` sorted by its keys, keeping the order of equal keys.
pub open spec fn sort_by_key<T>(s: Seq<(T, u64)>) -> Seq<(T, u64)>
    decreases s.len(),
{
    if s.len() == 0 {
        Seq::empty()
    } else {
        insert_by_key(sort_by_key(s.drop_last()), s.last())
    }
}

/// The entries of keyed pairs, without their keys.
pub open spec fn entries<T>(s: Seq<(T, u64)>) -> Seq<T> {
    s.map_values(|p: (T, u64)| p.0)
}

/// How a command goes over the wire; `None` where the generator does not
/// handle it (see `wire_step`), or where it has more than 8 buffers, 8
/// incoming handles or 8 outgoing handles. The raw data are sorted by
/// alignment, keeping the order of the arguments among equal alignments.
pub open spec fn wire_format_spec(items: Seq<IpcFileItem>, is_domain: bool, c: Command) -> Option<WireView> {
    match wire_walk(items, is_domain, c.arguments@, c.arguments@.len() as int) {
        Some(st) => if st.buffers.len() <= 8 && st.handles_in.len() <= 8 && st.handles_out.len() <= 8 {
            Some(WireView {
                is_domain,
                command_id: c.id,
                buffers: st.buffers,
                raw_data_in: entries(sort_by_key(st.raw_in)),
                raw_data_out: entries(sort_by_key(st.raw_out)),
                handles_in: st.handles_in,
                handles_out: st.handles_out,
                should_pass_pid: st.pid,
            })
        } else {
            None
        },
        None => None,
    }
}

// ---------------------------------------------------------------------------
// The implementation

proof fn lemma_insert_by_key<T>(s: Seq<(T, u64)>, x: (T, u64), p: int)
    requires
        0 <= p <= s.len(),
        forall|i: int| 0 <= i < p ==> (#[trigger] s[i]).1 <= x.1,
        p < s.len() ==> x.1 < s[p].1,
    ensures
        insert_by_key(s, x) == s.insert(p, x),
    decreases s.len(),
{
    if s.len() == 0 {
        assert(s.insert(p, x) =~= seq![x]);
    } else if p == 0 {
        assert(s.insert(p, x) =~= seq![x] + s);
    } else {
        let rest = s.drop_first();
        assert forall|i: int| 0 <= i < p - 1 implies (#[trigger] rest[i]).1 <= x.1 by {
            assert(rest[i] == s[i + 1]);
        }
        lemma_insert_by_key(rest, x, p - 1);
        assert(s.insert(p, x) =~= seq![s[0]] + rest.insert(p - 1, x));
    }
}

/// Keyed entries, by value.
pub open spec fn keyed<T: View>(v: Seq<(T, u64)>) -> Seq<(T::V, u64)> {
    v.map_values(|p: (T, u64)| (p.0@, p.1))
}

/// The entries sorted by their keys, keeping the order of equal keys.
fn sort_keyed<T: View>(v: Vec<(T, u64)>) -> (r: Vec<T>)
    ensures
        r@.map_values(|t: T| t@) == entries(sort_by_key(keyed(v@))),
{
    let ghost orig = keyed(v@);
    let mut v = v;
    let mut sorted: Vec<(T, u64)> = Vec::new();
    let ghost mut i: int = 0;
    while v.len() > 0
        invariant
            0 <= i <= orig.len(),
            keyed(v@) == orig.skip(i),
            keyed(sorted@) == sort_by_key(orig.take(i)),
        decreases v@.len(),
    {
        let ghost before = v@;
        let x = v.remove(0);
        proof {
            assert(keyed(before)[0] == (x.0@, x.1));
            assert(keyed(before) == orig.skip(i));
            assert(keyed(before).len() == before.len());
            assert(i < orig.len());
            assert(orig.skip(i)[0] == orig[i]);
            assert((x.0@, x.1) == orig[i]);
            assert(keyed(v@) =~= orig.skip(i + 1)) by {
                assert(keyed(v@) =~= keyed(before).drop_first());
            }
        }
        let mut p: usize = 0;
        while p < sorted.len() && sorted[p].1 <= x.1
            invariant
                p <= sorted@.len(),
                forall|k: int| 0 <= k < p ==> (#[trigger] sorted@[k]).1 <= x.1,
            decreases sorted@.len() - p,
        {
            p = p + 1;
        }
        let ghost s0 = keyed(sorted@);
        proof {
            assert forall|k: int| 0 <= k < p implies (#[trigger] s0[k]).1 <= x.1 by {
                assert(s0[k].1 == sorted@[k].1);
            }
            if p < sorted@.len() {
                assert(s0[p as int].1 == sorted@[p as int].1);
            }
            lemma_insert_by_key(s0, (x.0@, x.1), p as int);
            assert(orig.take(i + 1).drop_last() =~= orig.take(i));
            assert(orig.take(i + 1).last() == orig[i]);
        }
        let ghost xk = (x.0@, x.1);
        sorted.insert(p, x);
        assert(keyed(sorted@) =~= s0.insert(p as int, xk));
        proof {
            i = i + 1;
        }
    }
    assert(orig.take(i) =~= orig);
    let ghost sk = keyed(sorted@);
    let mut out: Vec<T> = Vec::new();
    let ghost mut j: int = 0;
    while sorted.len() > 0
        invariant
            0 <= j <= sk.len(),
            keyed(sorted@) == sk.skip(j),
            out@.map_values(|t: T| t@) == entries(sk.take(j)),
        decreases sorted@.len(),
    {
        let ghost before = sorted@;
        let x = sorted.remove(0);
        proof {
            assert(keyed(before)[0] == (x.0@, x.1));
            assert(keyed(before) == sk.skip(j));
            assert(keyed(before).len() == before.len());
            assert(j < sk.len());
            assert(sk.skip(j)[0] == sk[j]);
            assert(sk[j] == (x.0@, x.1));
            assert(keyed(sorted@) =~= sk.skip(j + 1)) by {
                assert(keyed(sorted@) =~= keyed(before).drop_first());
            }
        }
        let ghost o0 = out@;
        out.push(x.0);
        proof {
            assert(out@.map_values(|t: T| t@) =~= entries(sk.take(j + 1))) by {
                assert(sk.take(j + 1) =~= sk.take(j).push(sk[j]));
                assert(out@ =~= o0.push(x.0));
                assert(out@.map_values(|t: T| t@) =~= o0.map_values(|t: T| t@).push(x.0@));
                assert(entries(sk.take(j + 1)) =~= entries(sk.take(j)).push(sk[j].0));
            }
            j = j + 1;
        }
    }
    assert(sk.take(j) =~= sk);
    out
}

/// The walk's state held by the vectors being filled.
pub open spec fn state_of(
    buffers: Seq<Buffer>,
    raw_in: Seq<(RawDataIn, u64)>,
    raw_out: Seq<(RawDataOut, u64)>,
    handles_in: Seq<HandleIn>,
    handles_out: Seq<HandleOut>,
    pid: bool,
    n_args: nat,
) -> WireState {
    WireState {
        buffers: buffers.map_values(|b: Buffer| b@),
        raw_in: keyed(raw_in),
        raw_out: keyed(raw_out),
        handles_in: handles_in.map_values(|h: HandleIn| h@),
        handles_out: handles_out.map_values(|h: HandleOut| h@),
        pid,
        n_args,
    }
}

/// The name of an argument.
fn name_of(name: &Option<Vec<u8>>, n_args: usize) -> (r: Vec<u8>)
    requires
        n_args < usize::MAX,
    ensures
        r@ == arg_name(*name, n_args as nat),
{
    match name {
        Some(n) => copy_bytes(n.as_slice()),
        None => {
            let mut r: Vec<u8> = Vec::new();
            push_bytes(&mut r, "unnamed_".as_bytes());
            let k: usize = n_args + 1;
            push_decimal(&mut r, k as u64);
            r
        },
    }
}

/// A copy of a written type.
fn copy_nominal(t: &NominalType) -> (r: NominalType)
    ensures
        r@ == t@,
{
    match t {
        NominalType::Int(i) => NominalType::Int(*i),
        NominalType::Bool => NominalType::Bool,
        NominalType::F32 => NominalType::F32,
        NominalType::Bytes { size, alignment } => NominalType::Bytes { size: *size, alignment: *alignment },
        NominalType::Unknown { size } => NominalType::Unknown { size: *size },
        NominalType::TypeName { name, reference_location } => NominalType::TypeName {
            name: name.duplicate(),
            reference_location: *reference_location,
        },
    }
}

/// Whether a resolved type is a structure marked as large data.
fn is_large(items: &[IpcFileItem], t: &StructuralType) -> (r: bool)
    ensures
        r == large_struct(items@, *t),
{
    match t {
        StructuralType::Struct(k) => {
            if *k < items.len() {
                match &items[*k] {
                    IpcFileItem::StructDef(s) => s.is_large_data,
                    _ => false,
                }
            } else {
                false
            }
        },
        _ => false,
    }
}

/// The alignment of a written type, when it resolves and has a layout.
fn alignment(file: &IpcFile, t: &NominalType) -> (r: Option<u64>)
    ensures
        r == alignment_of(file.items_spec(), *t),
{
    let ctx = TypecheckContext { items: file.items().as_slice() };
    match t.typecheck_resolve(&ctx) {
        Ok(s) => match file.layout_of(&s, 16) {
            Some(l) => Some(l.alignment()),
            None => None,
        },
        Err(_) => None,
    }
}

/// How the arguments of `command` go over the wire, as the code generator
/// lays them out: `None` where the generator does not handle the command (a
/// type that does not resolve or has no layout, a large-data structure
/// passed by value, an array without a transfer mode, an incoming object, a
/// domain, an outgoing object of unknown or domain interface, more than 8
/// buffers or handles each way).
pub fn wire_format_of(file: &IpcFile, is_domain: bool, command: &Command) -> (r: Option<CommandWireFormatInfo>)
    ensures
        match wire_format_spec(file.items_spec(), is_domain, *command) {
            Some(v) => r matches Some(info) && info@ == v,
            None => r is None,
        },
{
    let items = file.items().as_slice();
    let ctx = TypecheckContext { items };
    let ghost its = file.items_spec();
    let ghost args = command.arguments@;
    let mut buffers: Vec<Buffer> = Vec::new();
    let mut raw_in: Vec<(RawDataIn, u64)> = Vec::new();
    let mut raw_out: Vec<(RawDataOut, u64)> = Vec::new();
    let mut handles_in: Vec<HandleIn> = Vec::new();
    let mut handles_out: Vec<HandleOut> = Vec::new();
    let mut pid = false;
    let mut n_args: usize = 0;
    let mut i: usize = 0;
    assert(state_of(buffers@, raw_in@, raw_out@, handles_in@, handles_out@, pid, 0) =~= empty_state());
    while i < command.arguments.len()
        invariant
            i <= args.len(),
            args == command.arguments@,
            items@ == its,
            ctx.items@ == its,
            its == file.items_spec(),
            n_args <= i,
            wire_walk(its, is_domain, args, i as int) == Some(
                state_of(buffers@, raw_in@, raw_out@, handles_in@, handles_out@, pid, n_args as nat),
            ),
        decreases args.len() - i,
    {
        let ghost st = state_of(buffers@, raw_in@, raw_out@, handles_in@, handles_out@, pid, n_args as nat);
        let ghost b0 = buffers@;
        let ghost ri0 = raw_in@;
        let ghost ro0 = raw_out@;
        let ghost hi0 = handles_in@;
        let ghost ho0 = handles_out@;
        let arg = &command.arguments[i];
        let ghost a = args[i as int];
        assert(*arg == a);
        let name = name_of(&arg.0, n_args);
        proof {
            lemma_walk_none_stays(its, is_domain, args, i + 1, args.len() as int);
            assert(wire_walk(its, is_domain, args, i + 1) == wire_step(its, is_domain, st, a));
        }
        match &arg.1 {
            ArgValue::ClientProcessId => {
                pid = true;
                let mut pname: Vec<u8> = Vec::new();
                push_bytes(&mut pname, "_pid_placeholder".as_bytes());
                let e = RawDataIn { name: pname, pid_placeholder: true, ty: NominalType::Int(IntType::U64) };
                raw_in.push((e, 8));
                assert(keyed(raw_in@) =~= keyed(ri0).push((e@, 8u64)));
            },
            ArgValue::In(t) => {
                let s = match t.typecheck_resolve(&ctx) {
                    Ok(s) => s,
                    Err(_) => {
                        return None;
                    },
                };
                let al = match alignment(file, t) {
                    Some(al) => al,
                    None => {
                        return None;
                    },
                };
                if is_large(items, &s) {
                    return None;
                }
                let e = RawDataIn { name, pid_placeholder: false, ty: copy_nominal(t) };
                raw_in.push((e, al));
                assert(keyed(raw_in@) =~= keyed(ri0).push((e@, al)));
                n_args = n_args + 1;
            },
            ArgValue::Out(t) => {
                let s = match t.typecheck_resolve(&ctx) {
                    Ok(s) => s,
                    Err(_) => {
                        return None;
                    },
                };
                let al = match alignment(file, t) {
                    Some(al) => al,
                    None => {
                        return None;
                    },
                };
                if is_large(items, &s) {
                    return None;
                }
                let e = RawDataOut { name, ty: copy_nominal(t) };
                raw_out.push((e, al));
                assert(keyed(raw_out@) =~= keyed(ro0).push((e@, al)));
            },
            ArgValue::InObject(_, _) => {
                return None;
            },
            ArgValue::OutObject(n, location) => {
                if is_domain {
                    return None;
                }
                let nm = match n {
                    Some(nm) => nm,
                    None => {
                        return None;
                    },
                };
                let k = match ctx.resolve_interface(nm, location) {
                    Ok(k) => k,
                    Err(_) => {
                        return None;
                    },
                };
                proof {
                    lemma_find_interface_in_range(its, nm@);
                }
                match &items[k] {
                    IpcFileItem::InterfaceDef(iface) => {
                        if iface.is_domain {
                            return None;
                        }
                    },
                    _ => {
                        return None;
                    },
                }
                let h = HandleOut { name, transfer_type: HandleTransferType::Move, interface: Some(nm.duplicate()) };
                handles_out.push(h);
                assert(handles_out@.map_values(|h: HandleOut| h@) =~= ho0.map_values(|h: HandleOut| h@).push(h@));
            },
            ArgValue::InHandle(tt) => {
                let h = HandleIn { name, transfer_type: *tt };
                handles_in.push(h);
                assert(handles_in@.map_values(|h: HandleIn| h@) =~= hi0.map_values(|h: HandleIn| h@).push(h@));
                n_args = n_args + 1;
            },
            ArgValue::OutHandle(tt) => {
                let h = HandleOut { name, transfer_type: *tt, interface: None };
                handles_out.push(h);
                assert(handles_out@.map_values(|h: HandleOut| h@) =~= ho0.map_values(|h: HandleOut| h@).push(h@));
            },
            ArgValue::InArray(t, m) => {
                let s = match t.typecheck_resolve(&ctx) {
                    Ok(s) => s,
                    Err(_) => {
                        return None;
                    },
                };
                let m = match m {
                    Some(m) => *m,
                    None => {
                        return None;
                    },
                };
                let b = Buffer {
                    name,
                    source: BufferSource::TypedSlice,
                    direction: Direction::In,
                    transfer_mode: m,
                    fixed_size: is_large(items, &s),
                    extra_attrs: BufferExtraAttrs::NoAttrs,
                };
                buffers.push(b);
                assert(buffers@.map_values(|b: Buffer| b@) =~= b0.map_values(|b: Buffer| b@).push(b@));
                n_args = n_args + 1;
            },
            ArgValue::OutArray(t, m) => {
                let s = match t.typecheck_resolve(&ctx) {
                    Ok(s) => s,
                    Err(_) => {
                        return None;
                    },
                };
                let m = match m {
                    Some(m) => *m,
                    None => {
                        return None;
                    },
                };
                let b = Buffer {
                    name,
                    source: BufferSource::TypedSlice,
                    direction: Direction::Out,
                    transfer_mode: m,
                    fixed_size: is_large(items, &s),
                    extra_attrs: BufferExtraAttrs::NoAttrs,
                };
                buffers.push(b);
                assert(buffers@.map_values(|b: Buffer| b@) =~= b0.map_values(|b: Buffer| b@).push(b@));
                n_args = n_args + 1;
            },
            ArgValue::InBuffer(m, attrs) => {
                let b = Buffer {
                    name,
                    source: BufferSource::ByteSlice,
                    direction: Direction::In,
                    transfer_mode: *m,
                    fixed_size: false,
                    extra_attrs: *attrs,
                };
                buffers.push(b);
                assert(buffers@.map_values(|b: Buffer| b@) =~= b0.map_values(|b: Buffer| b@).push(b@));
                n_args = n_args + 1;
            },
            ArgValue::OutBuffer(m, attrs) => {
                let b = Buffer {
                    name,
                    source: BufferSource::ByteSlice,
                    direction: Direction::Out,
                    transfer_mode: *m,
                    fixed_size: false,
                    extra_attrs: *attrs,
                };
                buffers.push(b);
                assert(buffers@.map_values(|b: Buffer| b@) =~= b0.map_values(|b: Buffer| b@).push(b@));
                n_args = n_args + 1;
            },
        }
        proof {
            assert(wire_walk(its, is_domain, args, i + 1) == wire_step(its, is_domain, st, a));
            assert(state_of(buffers@, raw_in@, raw_out@, handles_in@, handles_out@, pid, n_args as nat) =~= wire_step(
                its,
                is_domain,
                st,
                a,
            )->Some_0);
        }
        i = i + 1;
    }
    if buffers.len() > 8 || handles_in.len() > 8 || handles_out.len() > 8 {
        return None;
    }
    let raw_data_in = sort_keyed(raw_in);
    let raw_data_out = sort_keyed(raw_out);
    let info = CommandWireFormatInfo {
        is_domain,
        command_id: command.id,
        buffers,
        raw_data_in,
        raw_data_out,
        handles_in,
        handles_out,
        should_pass_pid: pid,
    };
    Some(info)
}

// ---------------------------------------------------------------------------
// The generated function's signature

/// The arguments and results of the function generated for a command, each
/// under its name with its Rust type, and the locals it leaves uninitialised
/// for large outgoing structures.
#[derive(Debug)]
pub struct CommandInterfaceInfo {
    pub args: Vec<(Vec<u8>, TypeTokens)>,
    pub results: Vec<(Vec<u8>, TypeTokens)>,
    pub uninit_vars: Vec<(Vec<u8>, TypeTokens)>,
}

/// The generated function's signature, by value.
#[verifier::ext_equal]
pub struct InterfaceView {
    pub args: Seq<(Seq<u8>, TokensView)>,
    pub results: Seq<(Seq<u8>, TokensView)>,
    pub uninit_vars: Seq<(Seq<u8>, TokensView)>,
}

/// Named tokens, by value.
pub open spec fn named_view(v: Seq<(Vec<u8>, TypeTokens)>) -> Seq<(Seq<u8>, TokensView)> {
    v.map_values(|p: (Vec<u8>, TypeTokens)| (p.0@, p.1@))
}

impl View for CommandInterfaceInfo {
    type V = InterfaceView;

    open spec fn view(&self) -> InterfaceView {
        InterfaceView {
            args: named_view(self.args@),
            results: named_view(self.results@),
            uninit_vars: named_view(self.uninit_vars@),
        }
    }
}

/// What an argument adds to the signature, inside the module of namespace
/// `ns`: nothing for the process id; an argument (`false`) for an incoming
/// value, handle, array or buffer, a result (`true`) for an outgoing one,
/// with its Rust type. `None` for an argument whose type the generator
/// cannot write, and for incoming objects and outgoing objects of unknown
/// interface, which it does not handle.
#[verifier::opaque]
pub open spec fn arg_signature(ns: Seq<Seq<u8>>, v: ArgValue) -> Option<Option<(bool, TokensView)>> {
    match v {
        ArgValue::ClientProcessId => Some(None),
        ArgValue::In(t) => match nominal_tokens_spec(ns, t@) {
            Some(k) => Some(Some((false, k))),
            None => None,
        },
        ArgValue::Out(t) => match nominal_tokens_spec(ns, t@) {
            Some(k) => Some(Some((true, k))),
            None => None,
        },
        ArgValue::InObject(_, _) => None,
        ArgValue::OutObject(n, _) => match n {
            Some(n) => Some(Some((true, import_spec(ns, n@)))),
            None => None,
        },
        ArgValue::InHandle(_) => Some(Some((false, imported("horizon_ipc".spec_bytes(), "RawHandle".spec_bytes())))),
        ArgValue::OutHandle(_) => Some(
            Some((true, imported("horizon_ipc::handle_storage".spec_bytes(), "OwnedHandle".spec_bytes()))),
        ),
        ArgValue::InArray(t, _) => match nominal_tokens_spec(ns, t@) {
            Some(k) => Some(Some((false, wrapped("&[".spec_bytes(), k, "]".spec_bytes())))),
            None => None,
        },
        ArgValue::OutArray(t, _) => match nominal_tokens_spec(ns, t@) {
            Some(k) => Some(Some((false, wrapped("&mut [".spec_bytes(), k, "]".spec_bytes())))),
            None => None,
        },
        ArgValue::InBuffer(_, _) => Some(Some((false, plain("&[u8]".spec_bytes())))),
        ArgValue::OutBuffer(_, _) => Some(Some((false, plain("&mut [u8]".spec_bytes())))),
    }
}

/// One argument added to the signature, under its name.
pub open spec fn signature_step(ns: Seq<Seq<u8>>, st: InterfaceView, arg: (Option<Vec<u8>>, ArgValue)) -> Option<InterfaceView> {
    let name = arg_name(arg.0, st.args.len());
    match arg_signature(ns, arg.1) {
        Some(Some((is_result, k))) => if is_result {
            Some(InterfaceView { results: st.results.push((name, k)), ..st })
        } else {
            Some(InterfaceView { args: st.args.push((name, k)), ..st })
        },
        Some(None) => Some(st),
        None => None,
    }
}

/// The signature after the first `n` arguments.
pub open spec fn signature_walk(ns: Seq<Seq<u8>>, args: Seq<(Option<Vec<u8>>, ArgValue)>, n: int) -> Option<InterfaceView>
    decreases n,
{
    if n <= 0 {
        Some(InterfaceView { args: Seq::empty(), results: Seq::empty(), uninit_vars: Seq::empty() })
    } else {
        match signature_walk(ns, args, n - 1) {
            Some(st) => signature_step(ns, st, args[n - 1]),
            None => None,
        }
    }
}

/// The signature of the function generated for command `c` in the module of
/// namespace `ns`.
pub open spec fn interface_info_spec(ns: Seq<Seq<u8>>, c: Command) -> Option<InterfaceView> {
    signature_walk(ns, c.arguments@, c.arguments@.len() as int)
}

/// What the code generator gathers of a command: the generated function's
/// signature and the command's wire format; `None` where it does not handle
/// the command.
pub open spec fn command_info_spec(ns: Seq<Seq<u8>>, items: Seq<IpcFileItem>, is_domain: bool, c: Command) -> Option<
    (InterfaceView, WireView),
> {
    match (interface_info_spec(ns, c), wire_format_spec(items, is_domain, c)) {
        (Some(i), Some(w)) => Some((i, w)),
        _ => None,
    }
}

proof fn lemma_signature_none_stays(ns: Seq<Seq<u8>>, args: Seq<(Option<Vec<u8>>, ArgValue)>, m: int, n: int)
    requires
        0 <= m <= n,
        signature_walk(ns, args, m) is None,
    ensures
        signature_walk(ns, args, n) is None,
    decreases n - m,
{
    if m < n {
        lemma_signature_none_stays(ns, args, m + 1, n);
    }
}

/// What an argument adds to the signature of the generated function.
fn arg_signature_of(namespace: &Vec<Vec<u8>>, v: &ArgValue) -> (r: Option<Option<(bool, TypeTokens)>>)
    ensures
        match arg_signature(namespace@.map_values(|p: Vec<u8>| p@), *v) {
            Some(Some((b, k))) => r matches Some(Some((rb, rk))) && rb == b && rk@ == k,
            Some(None) => r matches Some(None),
            None => r is None,
        },
{
    reveal(arg_signature);
    match v {
        ArgValue::ClientProcessId => Some(None),
        ArgValue::In(t) => match nominal_tokens(namespace, t) {
            Some(k) => Some(Some((false, k))),
            None => None,
        },
        ArgValue::Out(t) => match nominal_tokens(namespace, t) {
            Some(k) => Some(Some((true, k))),
            None => None,
        },
        ArgValue::InObject(_, _) => None,
        ArgValue::OutObject(n, _) => match n {
            Some(n) => Some(Some((true, import_in(namespace, n)))),
            None => None,
        },
        ArgValue::InHandle(_) => Some(Some((false, imported_tokens("horizon_ipc", "RawHandle")))),
        ArgValue::OutHandle(_) => Some(Some((true, imported_tokens("horizon_ipc::handle_storage", "OwnedHandle")))),
        ArgValue::InArray(t, _) => match nominal_tokens(namespace, t) {
            Some(k) => Some(Some((false, wrap_tokens("&[", k, "]")))),
            None => None,
        },
        ArgValue::OutArray(t, _) => match nominal_tokens(namespace, t) {
            Some(k) => Some(Some((false, wrap_tokens("&mut [", k, "]")))),
            None => None,
        },
        ArgValue::InBuffer(_, _) => Some(Some((false, plain_tokens("&[u8]")))),
        ArgValue::OutBuffer(_, _) => Some(Some((false, plain_tokens("&mut [u8]")))),
    }
}

/// The signature of the function generated for `command` in the module of
/// namespace `namespace`: `None` where the generator cannot write an
/// argument's type, or the command has an incoming object or an outgoing
/// object of unknown interface.
pub fn interface_info_of(namespace: &Vec<Vec<u8>>, command: &Command) -> (r: Option<CommandInterfaceInfo>)
    ensures
        match interface_info_spec(namespace@.map_values(|p: Vec<u8>| p@), *command) {
            Some(v) => r matches Some(info) && info@ == v,
            None => r is None,
        },
{
    let ghost ns = namespace@.map_values(|p: Vec<u8>| p@);
    let ghost args = command.arguments@;
    let mut fargs: Vec<(Vec<u8>, TypeTokens)> = Vec::new();
    let mut results: Vec<(Vec<u8>, TypeTokens)> = Vec::new();
    let uninit_vars: Vec<(Vec<u8>, TypeTokens)> = Vec::new();
    let mut i: usize = 0;
    assert(named_view(fargs@) =~= Seq::empty());
    assert(named_view(results@) =~= Seq::empty());
    assert(named_view(uninit_vars@) =~= Seq::empty());
    while i < command.arguments.len()
        invariant
            i <= args.len(),
            args == command.arguments@,
            ns == namespace@.map_values(|p: Vec<u8>| p@),
            fargs@.len() <= i,
            uninit_vars@.len() == 0,
            signature_walk(ns, args, i as int) == Some(
                InterfaceView {
                    args: named_view(fargs@),
                    results: named_view(results@),
                    uninit_vars: named_view(uninit_vars@),
                },
            ),
        decreases args.len() - i,
    {
        let ghost st = InterfaceView {
            args: named_view(fargs@),
            results: named_view(results@),
            uninit_vars: named_view(uninit_vars@),
        };
        let ghost a0 = fargs@;
        let ghost r0 = results@;
        let arg = &command.arguments[i];
        let ghost a = args[i as int];
        assert(*arg == a);
        let name = name_of(&arg.0, fargs.len());
        proof {
            if signature_walk(ns, args, i + 1) is None {
                lemma_signature_none_stays(ns, args, i + 1, args.len() as int);
            }
            assert(signature_walk(ns, args, i + 1) == signature_step(ns, st, a));
        }
        let (is_result, tokens) = match arg_signature_of(namespace, &arg.1) {
            Some(Some(e)) => e,
            Some(None) => {
                i = i + 1;
                continue;
            },
            None => {
                return None;
            },
        };
        if is_result {
            results.push((name, tokens));
            assert(named_view(results@) =~= named_view(r0).push((name@, tokens@)));
        } else {
            fargs.push((name, tokens));
            assert(named_view(fargs@) =~= named_view(a0).push((name@, tokens@)));
        }
        i = i + 1;
    }
    Some(CommandInterfaceInfo { args: fargs, results, uninit_vars })
}

/// Whether the code generator handles `command` in the module of namespace
/// `namespace`: whether `collect_command_info` may be called on it.
pub fn command_supported(namespace: &Vec<Vec<u8>>, file: &IpcFile, is_domain: bool, command: &Command) -> (r: bool)
    ensures
        r == command_info_spec(namespace@.map_values(|p: Vec<u8>| p@), file.items_spec(), is_domain, *command) is Some,
{
    let i = interface_info_of(namespace, command);
    let w = wire_format_of(file, is_domain, command);
    i.is_some() && w.is_some()
}

/// What the code generator gathers of `command`, declared in the module of
/// namespace `namespace`: the signature of the function it generates (each
/// argument and result under its name, `unnamed_<k>` where it has none, with
/// its Rust type) and how the command goes over the wire.
pub fn collect_command_info(namespace: &Vec<Vec<u8>>, file: &IpcFile, is_domain: bool, command: &Command) -> (r: (
    CommandInterfaceInfo,
    CommandWireFormatInfo,
))
    requires
        command_info_spec(namespace@.map_values(|p: Vec<u8>| p@), file.items_spec(), is_domain, *command) is Some,
    ensures
        command_info_spec(namespace@.map_values(|p: Vec<u8>| p@), file.items_spec(), is_domain, *command) == Some(
            (r.0@, r.1@),
        ),
{
    let i = interface_info_of(namespace, command);
    let w = wire_format_of(file, is_domain, command);
    (i.unwrap(), w.unwrap())
}

/// The buffers among the first `n` that go in direction `d` with transfer
/// mode `m`, in order.
pub open spec fn buffers_with(bs: Seq<BufferView>, d: Direction, m: BufferTransferMode, n: int) -> Seq<BufferView>
    decreases n,
{
    if n <= 0 {
        Seq::empty()
    } else if bs[n - 1].direction == d && bs[n - 1].transfer_mode == m {
        buffers_with(bs, d, m, n - 1).push(bs[n - 1])
    } else {
        buffers_with(bs, d, m, n - 1)
    }
}

/// How many of the first `n` handles are passed by `t`.
pub open spec fn handles_by(ts: Seq<HandleTransferType>, t: HandleTransferType, n: int) -> nat
    decreases n,
{
    if n <= 0 {
        0
    } else if ts[n - 1] == t {
        handles_by(ts, t, n - 1) + 1
    } else {
        handles_by(ts, t, n - 1)
    }
}

/// How many of the first `n` buffers are not of fixed size.
pub open spec fn sized_count(bs: Seq<BufferView>, n: int) -> nat
    decreases n,
{
    if n <= 0 {
        0
    } else if !bs[n - 1].fixed_size {
        sized_count(bs, n - 1) + 1
    } else {
        sized_count(bs, n - 1)
    }
}

/// A copy of a buffer.
fn copy_buffer(b: &Buffer) -> (r: Buffer)
    ensures
        r@ == b@,
{
    Buffer {
        name: copy_bytes(b.name.as_slice()),
        source: b.source,
        direction: b.direction,
        transfer_mode: b.transfer_mode,
        fixed_size: b.fixed_size,
        extra_attrs: b.extra_attrs,
    }
}

impl CommandWireFormatInfo {
    /// Whether the request carries a special header: to send the process id
    /// or handles.
    pub fn has_in_special_header(&self) -> (r: bool)
        ensures
            r == (self.should_pass_pid || self.handles_in@.len() > 0),
    {
        self.should_pass_pid || self.handles_in.len() > 0
    }

    /// Whether the response carries a special header: to return handles.
    pub fn has_out_special_header(&self) -> (r: bool)
        ensures
            r == (self.handles_out@.len() > 0),
    {
        self.handles_out.len() > 0
    }

    /// Copies of the buffers that go in direction `d` with transfer mode `m`.
    fn buffers_of(&self, d: Direction, m: BufferTransferMode) -> (r: Vec<Buffer>)
        ensures
            r@.map_values(|b: Buffer| b@) == buffers_with(self@.buffers, d, m, self@.buffers.len() as int),
    {
        let ghost bs = self@.buffers;
        let mut r: Vec<Buffer> = Vec::new();
        let mut i: usize = 0;
        while i < self.buffers.len()
            invariant
                i <= self.buffers@.len(),
                bs == self.buffers@.map_values(|b: Buffer| b@),
                r@.map_values(|b: Buffer| b@) == buffers_with(bs, d, m, i as int),
            decreases self.buffers@.len() - i,
        {
            let b = &self.buffers[i];
            assert(bs[i as int] == b@);
            if b.direction == d && b.transfer_mode == m {
                let ghost r0 = r@;
                r.push(copy_buffer(b));
                assert(r@.map_values(|b: Buffer| b@) =~= r0.map_values(|b: Buffer| b@).push(b@));
            }
            i = i + 1;
        }
        r
    }

    /// The incoming pointer buffers, in order.
    pub fn in_pointer_buffers(&self) -> (r: Vec<Buffer>)
        ensures
            r@.map_values(|b: Buffer| b@) == buffers_with(
                self@.buffers,
                Direction::In,
                BufferTransferMode::Pointer,
                self@.buffers.len() as int,
            ),
    {
        self.buffers_of(Direction::In, BufferTransferMode::Pointer)
    }

    /// The outgoing pointer buffers, in order.
    pub fn out_pointer_buffers(&self) -> (r: Vec<Buffer>)
        ensures
            r@.map_values(|b: Buffer| b@) == buffers_with(
                self@.buffers,
                Direction::Out,
                BufferTransferMode::Pointer,
                self@.buffers.len() as int,
            ),
    {
        self.buffers_of(Direction::Out, BufferTransferMode::Pointer)
    }

    /// The incoming mapped buffers, in order.
    pub fn in_map_alias_buffers(&self) -> (r: Vec<Buffer>)
        ensures
            r@.map_values(|b: Buffer| b@) == buffers_with(
                self@.buffers,
                Direction::In,
                BufferTransferMode::MapAlias,
                self@.buffers.len() as int,
            ),
    {
        self.buffers_of(Direction::In, BufferTransferMode::MapAlias)
    }

    /// The outgoing mapped buffers, in order.
    pub fn out_map_alias_buffers(&self) -> (r: Vec<Buffer>)
        ensures
            r@.map_values(|b: Buffer| b@) == buffers_with(
                self@.buffers,
                Direction::Out,
                BufferTransferMode::MapAlias,
                self@.buffers.len() as int,
            ),
    {
        self.buffers_of(Direction::Out, BufferTransferMode::MapAlias)
    }

    /// How many outgoing pointer buffers have a size of their own, which the
    /// request lists.
    pub fn out_pointer_sizes_count(&self) -> (r: usize)
        ensures
            ({
                let ob = buffers_with(self@.buffers, Direction::Out, BufferTransferMode::Pointer, self@.buffers.len() as int);
                r == sized_count(ob, ob.len() as int)
            }),
    {
        let ob = self.out_pointer_buffers();
        let ghost obv = ob@.map_values(|b: Buffer| b@);
        let mut n: usize = 0;
        let mut i: usize = 0;
        while i < ob.len()
            invariant
                i <= ob@.len(),
                obv == ob@.map_values(|b: Buffer| b@),
                n == sized_count(obv, i as int),
                n <= i,
            decreases ob@.len() - i,
        {
            assert(obv[i as int] == ob@[i as int]@);
            if !ob[i].fixed_size {
                n = n + 1;
            }
            i = i + 1;
        }
        n
    }

    fn count_handles_in(&self, t: HandleTransferType) -> (r: usize)
        ensures
            r == handles_by(self.handles_in@.map_values(|h: HandleIn| h.transfer_type), t, self.handles_in@.len() as int),
    {
        let ghost ts = self.handles_in@.map_values(|h: HandleIn| h.transfer_type);
        let mut n: usize = 0;
        let mut i: usize = 0;
        while i < self.handles_in.len()
            invariant
                i <= self.handles_in@.len(),
                ts == self.handles_in@.map_values(|h: HandleIn| h.transfer_type),
                n == handles_by(ts, t, i as int),
                n <= i,
            decreases self.handles_in@.len() - i,
        {
            assert(ts[i as int] == self.handles_in@[i as int].transfer_type);
            if self.handles_in[i].transfer_type == t {
                n = n + 1;
            }
            i = i + 1;
        }
        n
    }

    fn count_handles_out(&self, t: HandleTransferType) -> (r: usize)
        ensures
            r == handles_by(self.handles_out@.map_values(|h: HandleOut| h.transfer_type), t, self.handles_out@.len() as int),
    {
        let ghost ts = self.handles_out@.map_values(|h: HandleOut| h.transfer_type);
        let mut n: usize = 0;
        let mut i: usize = 0;
        while i < self.handles_out.len()
            invariant
                i <= self.handles_out@.len(),
                ts == self.handles_out@.map_values(|h: HandleOut| h.transfer_type),
                n == handles_by(ts, t, i as int),
                n <= i,
            decreases self.handles_out@.len() - i,
        {
            assert(ts[i as int] == self.handles_out@[i as int].transfer_type);
            if self.handles_out[i].transfer_type == t {
                n = n + 1;
            }
            i = i + 1;
        }
        n
    }

    /// How many handles the request copies.
    pub fn in_copy_handles(&self) -> (r: usize)
        ensures
            r == handles_by(self.handles_in@.map_values(|h: HandleIn| h.transfer_type), HandleTransferType::Copy, self.handles_in@.len() as int),
    {
        self.count_handles_in(HandleTransferType::Copy)
    }

    /// How many handles the request moves.
    pub fn in_move_handles(&self) -> (r: usize)
        ensures
            r == handles_by(self.handles_in@.map_values(|h: HandleIn| h.transfer_type), HandleTransferType::Move, self.handles_in@.len() as int),
    {
        self.count_handles_in(HandleTransferType::Move)
    }

    /// How many handles the response copies.
    pub fn out_copy_handles(&self) -> (r: usize)
        ensures
            r == handles_by(self.handles_out@.map_values(|h: HandleOut| h.transfer_type), HandleTransferType::Copy, self.handles_out@.len() as int),
    {
        self.count_handles_out(HandleTransferType::Copy)
    }

    /// How many handles the response moves.
    pub fn out_move_handles(&self) -> (r: usize)
        ensures
            r == handles_by(self.handles_out@.map_values(|h: HandleOut| h.transfer_type), HandleTransferType::Move, self.handles_out@.len() as int),
    {
        self.count_handles_out(HandleTransferType::Move)
    }
}

/// Once a step fails, the walk fails.
proof fn lemma_walk_none_stays(items: Seq<IpcFileItem>, is_domain: bool, args: Seq<(Option<Vec<u8>>, ArgValue)>, m: int, n: int)
    requires
        0 <= m <= n,
    ensures
        wire_walk(items, is_domain, args, m) is None ==> wire_walk(items, is_domain, args, n) is None,
    decreases n - m,
{
    if m < n {
        lemma_walk_none_stays(items, is_domain, args, m, n - 1);
    }
}

proof fn lemma_find_interface_in_range(items: Seq<IpcFileItem>, name: IdentView)
    ensures
        find_interface(items, name) matches Some(k) ==> 0 <= k < items.len(),
{
    lemma_find_interface_from_range(items, name, 0);
}

proof fn lemma_find_interface_from_range(items: Seq<IpcFileItem>, name: IdentView, i0: int)
    requires
        0 <= i0,
    ensures
        crate::swipc::typecheck::find_interface_from(items, name, i0) matches Some(k) ==> i0 <= k < items.len(),
    decreases items.len() - i0,
{
    if i0 < items.len() {
        lemma_find_interface_from_range(items, name, i0 + 1);
    }
}

// ---------------------------------------------------------------------------
// Message sizes

/// The offset of the CMIF header, the size of the data section and the
/// whole size of a request or a response (the response also gives where the
/// result sits when no special header is sent).
#[derive(Debug)]
pub struct MessageSizes {
    pub cmif_header_offset: u64,
    pub data_size: u64,
    pub message_size: u64,
    pub cmif_alternative_result_offset: u64,
}

/// The raw data as the fields of a structure, which is how it is laid out.
pub open spec fn raw_in_fields(s: Seq<RawDataIn>) -> Seq<StructField> {
    s.map_values(|d: RawDataIn| StructField { name: d.name, ty: d.ty, location: Span { file_id: 0, left: 0, right: 0 } })
}

/// The raw output data as the fields of a structure.
pub open spec fn raw_out_fields(s: Seq<RawDataOut>) -> Seq<StructField> {
    s.map_values(|d: RawDataOut| StructField { name: d.name, ty: d.ty, location: Span { file_id: 0, left: 0, right: 0 } })
}

/// The size of a structure with these fields, where it has a layout.
pub open spec fn fields_size_spec(items: Seq<IpcFileItem>, fields: Seq<StructField>) -> Option<nat> {
    match fields_layout_spec(items, fields, fields.len() as int, layout_depth()) {
        Some(ls) => if layout_spec(ls).pos <= u64::MAX {
            Some(layout_spec(ls).pos)
        } else {
            None
        },
        None => None,
    }
}

/// The sizes of a request whose raw data takes `raw` bytes: the HIPC header,
/// the special header with the process id and the handles, and the
/// descriptors of the incoming pointer and of the map-alias buffers come
/// before the CMIF header; the data section holds 16 bytes of padding, the
/// CMIF header, the raw data padded to 4 bytes and the sizes of the
/// outgoing pointer buffers without a fixed size (2 bytes each, padded to
/// 4); the descriptors of the outgoing pointer buffers end the request.
pub open spec fn request_sizes_spec(w: WireView, raw: nat) -> (int, int, int) {
    let n = w.buffers.len() as int;
    let in_ptr = buffers_with(w.buffers, Direction::In, BufferTransferMode::Pointer, n).len();
    let out_ptr = buffers_with(w.buffers, Direction::Out, BufferTransferMode::Pointer, n);
    let in_map = buffers_with(w.buffers, Direction::In, BufferTransferMode::MapAlias, n).len();
    let out_map = buffers_with(w.buffers, Direction::Out, BufferTransferMode::MapAlias, n).len();
    let sizes = sized_count(out_ptr, out_ptr.len() as int);
    let special: int = if w.should_pass_pid || w.handles_in.len() > 0 {
        4 + (if w.should_pass_pid { 8int } else { 0int }) + 4 * w.handles_in.len()
    } else {
        0
    };
    let cmif = 8 + special + 8 * in_ptr + 12 * in_map + 12 * out_map;
    let data = 16 + 16 + raw + (4 - raw % 4) % 4 + 2 * sizes + (if sizes % 2 != 0 { 2int } else { 0int });
    (cmif, data, cmif + data + 8 * out_ptr.len())
}

/// The sizes of a response whose raw data takes `raw` bytes: the HIPC
/// header, the special header with the handles and the descriptors of the
/// outgoing pointer buffers come before the CMIF header; the data section
/// holds 16 bytes of padding, the CMIF header and the raw data padded to 4
/// bytes. Without a special header, the CMIF header starts at the first
/// multiple of 16 after the HIPC header and the descriptors, and its result
/// 8 bytes into it.
pub open spec fn response_sizes_spec(w: WireView, raw: nat) -> (int, int, int, int) {
    let n = w.buffers.len() as int;
    let out_ptr = buffers_with(w.buffers, Direction::Out, BufferTransferMode::Pointer, n).len();
    let special: int = if w.handles_out.len() > 0 {
        4 + 4 * (w.handles_out.len() as int)
    } else {
        0
    };
    let cmif = 8 + special + 8 * out_ptr;
    let alt = 8 + 8 * out_ptr;
    let alt = alt + (16 - alt % 16) % 16;
    let data = 16 + 16 + raw + (4 - raw % 4) % 4;
    (cmif, data, cmif + data, alt + 8)
}

proof fn lemma_resolve_by_view(items: Seq<IpcFileItem>, a: NominalType, b: NominalType, depth: nat)
    requires
        a@ == b@,
    ensures
        resolve_spec(items, a, depth) == resolve_spec(items, b, depth),
{
}

pub(crate) proof fn lemma_fields_layout_by_view(items: Seq<IpcFileItem>, f: Seq<StructField>, g: Seq<StructField>, n: int, depth: nat)
    requires
        0 <= n <= f.len(),
        f.len() == g.len(),
        forall|i: int| 0 <= i < f.len() ==> (#[trigger] f[i]).ty@ == g[i].ty@,
    ensures
        fields_layout_spec(items, f, n, depth) == fields_layout_spec(items, g, n, depth),
    decreases n,
{
    if n > 0 {
        lemma_fields_layout_by_view(items, f, g, n - 1, depth);
        lemma_resolve_by_view(items, f[n - 1].ty, g[n - 1].ty, resolve_depth());
    }
}

/// The size of the raw data, given as structure fields, where it has a
/// layout.
pub(crate) fn fields_size(file: &IpcFile, fields: Vec<StructField>) -> (r: Option<u64>)
    ensures
        match fields_size_spec(file.items_spec(), fields@) {
            Some(n) => r == Some(n as u64),
            None => r is None,
        },
{
    let s = Struct {
        name: NamespacedIdent { namespace: Vec::new(), ident: Vec::new() },
        is_large_data: false,
        preferred_transfer_mode: None,
        fields,
        location: Span { file_id: 0, left: 0, right: 0 },
    };
    match s.layout(file) {
        Some(l) => Some(l.size()),
        None => None,
    }
}

impl CommandWireFormatInfo {
    /// The raw input data as structure fields.
    pub(crate) fn raw_in_struct_fields(&self) -> (r: Vec<StructField>)
        ensures
            r@.len() == self.raw_data_in@.len(),
            forall|i: int| 0 <= i < r@.len() ==> (#[trigger] r@[i]).ty@ == raw_in_fields(self.raw_data_in@)[i].ty@,
    {
        let mut r: Vec<StructField> = Vec::new();
        let mut i: usize = 0;
        while i < self.raw_data_in.len()
            invariant
                i <= self.raw_data_in@.len(),
                r@.len() == i,
                forall|j: int| 0 <= j < i ==> (#[trigger] r@[j]).ty@ == self.raw_data_in@[j].ty@,
            decreases self.raw_data_in@.len() - i,
        {
            let d = &self.raw_data_in[i];
            r.push(StructField { name: copy_bytes(d.name.as_slice()), ty: copy_nominal(&d.ty), location: Span { file_id: 0, left: 0, right: 0 } });
            i = i + 1;
        }
        r
    }

    /// The raw output data as structure fields.
    pub(crate) fn raw_out_struct_fields(&self) -> (r: Vec<StructField>)
        ensures
            r@.len() == self.raw_data_out@.len(),
            forall|i: int| 0 <= i < r@.len() ==> (#[trigger] r@[i]).ty@ == raw_out_fields(self.raw_data_out@)[i].ty@,
    {
        let mut r: Vec<StructField> = Vec::new();
        let mut i: usize = 0;
        while i < self.raw_data_out.len()
            invariant
                i <= self.raw_data_out@.len(),
                r@.len() == i,
                forall|j: int| 0 <= j < i ==> (#[trigger] r@[j]).ty@ == self.raw_data_out@[j].ty@,
            decreases self.raw_data_out@.len() - i,
        {
            let d = &self.raw_data_out[i];
            r.push(StructField { name: copy_bytes(d.name.as_slice()), ty: copy_nominal(&d.ty), location: Span { file_id: 0, left: 0, right: 0 } });
            i = i + 1;
        }
        r
    }

    /// The sizes of the request message; `None` where the raw data has no
    /// layout, or its size comes within 1024 of `u64::MAX`, where the sums
    /// would overflow. At most 8 buffers and 8 incoming handles, as the code
    /// generator lays out.
    pub fn request_sizes(&self, file: &IpcFile) -> (r: Option<MessageSizes>)
        requires
            self.buffers@.len() <= 8,
            self.handles_in@.len() <= 8,
        ensures
            match fields_size_spec(file.items_spec(), raw_in_fields(self.raw_data_in@)) {
                Some(raw) => if raw + 1024 <= u64::MAX {
                    r matches Some(m) && (m.cmif_header_offset as int, m.data_size as int, m.message_size as int)
                        == request_sizes_spec(self@, raw) && m.cmif_alternative_result_offset == 0
                } else {
                    r is None
                },
                None => r is None,
            },
    {
        let fields = self.raw_in_struct_fields();
        proof {
            lemma_fields_layout_by_view(file.items_spec(), fields@, raw_in_fields(self.raw_data_in@), fields@.len() as int, layout_depth());
        }
        let raw = match fields_size(file, fields) {
            Some(raw) => raw,
            None => {
                return None;
            },
        };
        let in_ptr = self.in_pointer_buffers().len() as u64;
        let out_ptr = self.out_pointer_buffers().len() as u64;
        let in_map = self.in_map_alias_buffers().len() as u64;
        let out_map = self.out_map_alias_buffers().len() as u64;
        let sizes = self.out_pointer_sizes_count() as u64;
        proof {
            lemma_buffers_with_len(self@.buffers, Direction::In, BufferTransferMode::Pointer, self@.buffers.len() as int);
            lemma_buffers_with_len(self@.buffers, Direction::Out, BufferTransferMode::Pointer, self@.buffers.len() as int);
            lemma_buffers_with_len(self@.buffers, Direction::In, BufferTransferMode::MapAlias, self@.buffers.len() as int);
            lemma_buffers_with_len(self@.buffers, Direction::Out, BufferTransferMode::MapAlias, self@.buffers.len() as int);
            let ob = buffers_with(self@.buffers, Direction::Out, BufferTransferMode::Pointer, self@.buffers.len() as int);
            lemma_sized_count_len(ob, ob.len() as int);
        }
        let special: u64 = if self.has_in_special_header() {
            4 + (if self.should_pass_pid { 8u64 } else { 0u64 }) + 4 * (self.handles_in.len() as u64)
        } else {
            0
        };
        let cmif = 8 + special + 8 * in_ptr + 12 * in_map + 12 * out_map;
        let pad: u64 = (4 - raw % 4) % 4;
        let extra: u64 = if sizes % 2 != 0 { 2 } else { 0 };
        if raw > u64::MAX - 1024 {
            return None;
        }
        let data = 32 + raw + pad + 2 * sizes + extra;
        let total = cmif + data + 8 * out_ptr;
        Some(MessageSizes { cmif_header_offset: cmif, data_size: data, message_size: total, cmif_alternative_result_offset: 0 })
    }
    /// The sizes of the response message; `None` where the raw output data
    /// has no layout, or its size comes within 1024 of `u64::MAX`. At most 8
    /// buffers and 8 outgoing handles, as the code generator lays out.
    pub fn response_sizes(&self, file: &IpcFile) -> (r: Option<MessageSizes>)
        requires
            self.buffers@.len() <= 8,
            self.handles_out@.len() <= 8,
        ensures
            match fields_size_spec(file.items_spec(), raw_out_fields(self.raw_data_out@)) {
                Some(raw) => if raw + 1024 <= u64::MAX {
                    r matches Some(m) && (
                        m.cmif_header_offset as int,
                        m.data_size as int,
                        m.message_size as int,
                        m.cmif_alternative_result_offset as int,
                    ) == response_sizes_spec(self@, raw)
                } else {
                    r is None
                },
                None => r is None,
            },
    {
        let fields = self.raw_out_struct_fields();
        proof {
            lemma_fields_layout_by_view(file.items_spec(), fields@, raw_out_fields(self.raw_data_out@), fields@.len() as int, layout_depth());
        }
        let raw = match fields_size(file, fields) {
            Some(raw) => raw,
            None => {
                return None;
            },
        };
        let out_ptr = self.out_pointer_buffers().len() as u64;
        proof {
            lemma_buffers_with_len(self@.buffers, Direction::Out, BufferTransferMode::Pointer, self@.buffers.len() as int);
        }
        let special: u64 = if self.has_out_special_header() {
            4 + 4 * (self.handles_out.len() as u64)
        } else {
            0
        };
        let cmif = 8 + special + 8 * out_ptr;
        let alt0 = 8 + 8 * out_ptr;
        let alt = alt0 + (16 - alt0 % 16) % 16;
        if raw > u64::MAX - 1024 {
            return None;
        }
        let data = 32 + raw + (4 - raw % 4) % 4;
        Some(MessageSizes { cmif_header_offset: cmif, data_size: data, message_size: cmif + data, cmif_alternative_result_offset: alt + 8 })
    }
}

pub(crate) proof fn lemma_buffers_with_len(bs: Seq<BufferView>, d: Direction, m: BufferTransferMode, n: int)
    requires
        0 <= n,
    ensures
        buffers_with(bs, d, m, n).len() <= n,
    decreases n,
{
    if n > 0 {
        lemma_buffers_with_len(bs, d, m, n - 1);
    }
}

pub(crate) proof fn lemma_sized_count_len(bs: Seq<BufferView>, n: int)
    requires
        0 <= n,
    ensures
        sized_count(bs, n) <= n,
    decreases n,
{
    if n > 0 {
        lemma_sized_count_len(bs, n - 1);
    }
}

} // verus!
