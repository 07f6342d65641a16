//! The code generated for an interface: a client object that owns (or
//! borrows, or shares) a session handle, with one method per command, and
//! the code generated for a whole definition file.

use vstd::prelude::*;
use vstd::utf8::valid_utf8;
use crate::swipc::codegen::{
    GeneratedItem, GeneratedView, TokensView, import_seq, bitflags_spec, enum_spec, gen_bitflags, gen_enum, gen_struct,
    gen_type_alias, struct_spec, type_alias_spec,
};
use crate::swipc::command_body::{command_body_spec, joined_names, listed, make_command_body};
use crate::swipc::model::{Command, Interface, IpcFileItem};
use crate::swipc::naming::{NameCase, cased, cased_bytes};
use crate::swipc::layout::layout_depth;
use crate::swipc::text::{push_bytes, str_from_utf8};
use crate::swipc::typecheck::IpcFile;
use crate::swipc::model::copy_parts;
use crate::swipc::wire_format::{
    CommandInterfaceInfo, CommandWireFormatInfo, InterfaceView, collect_command_info, command_info_spec,
    interface_info_of, interface_info_spec,
    command_supported, lemma_fields_layout_by_view, named_view, raw_in_fields, raw_out_fields,
};
use vstd::string::StringSliceAdditionalSpecFns;

verus! {

/// The parameters after `&self`, each as `, name: Type`.
pub open spec fn params_text(args: Seq<(Seq<u8>, TokensView)>) -> Seq<u8>
    decreases args.len(),
{
    if args.len() == 0 {
        Seq::empty()
    } else {
        params_text(args.drop_last()) + ", ".spec_bytes() + args.last().0 + ": ".spec_bytes() + args.last().1.text
    }
}

/// The type a command returns: its one result's type, or the tuple of
/// their types.
pub open spec fn return_type_text(results: Seq<(Seq<u8>, TokensView)>) -> Seq<u8> {
    if results.len() == 1 {
        results[0].1.text
    } else {
        "(".spec_bytes() + joined_names(results.map_values(|p: (Seq<u8>, TokensView)| p.1.text)) + ")".spec_bytes()
    }
}

/// The method generated for command `c` of interface `iface_name`: named
/// in snake_case, taking the arguments and returning the results in a
/// `Result`, with the body `command_body_spec` gives.
pub open spec fn command_method_spec(
    ns: Seq<Seq<u8>>,
    items: Seq<IpcFileItem>,
    iface_name: Seq<u8>,
    c: Command,
    iv: InterfaceView,
    w: CommandWireFormatInfo,
) -> Option<Seq<u8>> {
    match command_body_spec(ns, items, iface_name, c.name@, iv, w) {
        Some(body) => Some(
            "pub fn ".spec_bytes() + cased(c.name@, NameCase::Snake) + "(&self".spec_bytes() + params_text(iv.args)
                + ") -> Result<".spec_bytes() + return_type_text(iv.results) + "> {\n".spec_bytes() + body
                + "}\n".spec_bytes(),
        ),
        None => None,
    }
}

/// The method generated for command `c`, from the command alone: what
/// `collect_command_info` gathers of it (outside a domain) goes into
/// `command_method_spec`; the method depends on the wire format only by
/// its value (see `lemma_body_by_view`).
#[verifier::opaque]
pub open spec fn command_text_spec(ns: Seq<Seq<u8>>, items: Seq<IpcFileItem>, iface_name: Seq<u8>, c: Command) -> Option<Seq<u8>> {
    match command_info_spec(ns, items, false, c) {
        Some((iv, wv)) => command_method_spec(ns, items, iface_name, c, iv, choose|w: CommandWireFormatInfo| w@ == wv),
        None => None,
    }
}

/// The methods of the first `n` commands, each followed by a blank line.
pub open spec fn commands_text(ns: Seq<Seq<u8>>, items: Seq<IpcFileItem>, iface_name: Seq<u8>, cs: Seq<Command>, n: int) -> Option<Seq<u8>>
    decreases n,
{
    if n <= 0 {
        Some(Seq::empty())
    } else {
        match (commands_text(ns, items, iface_name, cs, n - 1), command_text_spec(ns, items, iface_name, cs[n - 1])) {
            (Some(a), Some(b)) => Some(a + b + "\n".spec_bytes()),
            _ => None,
        }
    }
}

/// The client object of an interface named `name` with these methods: the
/// structure over a handle storage (an owned handle by default), its
/// constructor and accessor, the methods, borrowing and sharing an owned
/// session, and `Debug`.
pub open spec fn interface_text(name: Seq<u8>, methods: Seq<u8>) -> Seq<u8> {
    "pub struct ".spec_bytes() + name
        + "<S: HandleStorage = OwnedHandle> {\n    pub(crate) handle: S,\n}\nimpl<S: HandleStorage> ".spec_bytes() + name
        + "<S> {\n    pub fn new(handle: S) -> Self {\n        Self { handle }\n    }\n    pub fn into_inner(self) -> S {\n        self.handle\n    }\n".spec_bytes()
        + methods + "}\nimpl ".spec_bytes() + name + "<OwnedHandle> {\n    pub fn as_ref(&self) -> ".spec_bytes() + name
        + "<RefHandle<'_>> {\n        ".spec_bytes() + name
        + " { handle: self.handle.as_ref() }\n    }\n    pub fn into_shared(self) -> ".spec_bytes() + name
        + "<SharedHandle> {\n        ".spec_bytes() + name
        + " { handle: SharedHandle::new(self.handle.leak()) }\n    }\n}\nimpl ::core::fmt::Debug for ".spec_bytes() + name
        + " {\n    fn fmt(&self, f: &mut ::core::fmt::Formatter<'_>) -> ::core::fmt::Result {\n        write!(f, \"".spec_bytes()
        + name + "({})\", self.handle)\n    }\n}\n\n".spec_bytes()
}


/// The items of the IPC runtime that the generated client code names.
pub open spec fn runtime_imports() -> Seq<(Seq<u8>, Seq<u8>)> {
    seq![
        ("horizon_ipc::handle_storage".spec_bytes(), "HandleStorage".spec_bytes()),
        ("horizon_ipc::handle_storage".spec_bytes(), "OwnedHandle".spec_bytes()),
        ("horizon_ipc::handle_storage".spec_bytes(), "RefHandle".spec_bytes()),
        ("horizon_ipc::handle_storage".spec_bytes(), "SharedHandle".spec_bytes()),
        ("horizon_error".spec_bytes(), "Result".spec_bytes()),
        ("horizon_error".spec_bytes(), "ErrorCode".spec_bytes()),
        ("horizon_ipc".spec_bytes(), "RawHandle".spec_bytes()),
        ("horizon_ipc::raw::hipc".spec_bytes(), "HipcHeader".spec_bytes()),
        ("horizon_ipc::raw::hipc".spec_bytes(), "HipcSpecialHeader".spec_bytes()),
        ("horizon_ipc::raw::hipc".spec_bytes(), "HipcInPointerBufferDescriptor".spec_bytes()),
        ("horizon_ipc::raw::hipc".spec_bytes(), "HipcOutPointerBufferDescriptor".spec_bytes()),
        ("horizon_ipc::raw::hipc".spec_bytes(), "HipcMapAliasBufferDescriptor".spec_bytes()),
        ("horizon_ipc::raw::cmif".spec_bytes(), "CmifInHeader".spec_bytes()),
        ("horizon_ipc::raw::cmif".spec_bytes(), "CmifOutHeader".spec_bytes()),
        ("horizon_ipc::cmif".spec_bytes(), "CommandType".spec_bytes()),
        ("horizon_ipc::hipc".spec_bytes(), "MapAliasBufferMode".spec_bytes()),
        ("horizon_ipc::buffer".spec_bytes(), "get_ipc_buffer_ptr".spec_bytes()),
        ("core::mem".spec_bytes(), "MaybeUninit".spec_bytes()),
    ]
}

/// What the types of named arguments or results import, in order.
pub open spec fn tokens_imports(s: Seq<(Seq<u8>, TokensView)>) -> Seq<(Seq<u8>, Seq<u8>)>
    decreases s.len(),
{
    if s.len() == 0 {
        Seq::empty()
    } else {
        tokens_imports(s.drop_last()) + import_seq(s.last().1.import)
    }
}

/// What the signatures of the first `n` commands import.
pub open spec fn commands_imports(ns: Seq<Seq<u8>>, cs: Seq<Command>, n: int) -> Seq<(Seq<u8>, Seq<u8>)>
    decreases n,
{
    if n <= 0 {
        Seq::empty()
    } else {
        commands_imports(ns, cs, n - 1) + match interface_info_spec(ns, cs[n - 1]) {
            Some(iv) => tokens_imports(iv.args) + tokens_imports(iv.results),
            None => Seq::empty(),
        }
    }
}

/// The code for an interface, which imports the runtime's items and what
/// the commands' signatures name; `None` for a domain interface or a command
/// the generator does not handle.
pub open spec fn interface_spec(items: Seq<IpcFileItem>, i: Interface) -> Option<GeneratedView> {
    if i.is_domain {
        None
    } else {
        match commands_text(i.name@.namespace, items, i.name@.ident, i.commands@, i.commands@.len() as int) {
            Some(m) => Some(
                GeneratedView {
                    namespace: i.name@.namespace,
                    text: interface_text(i.name@.ident, m),
                    imports: runtime_imports() + commands_imports(i.name@.namespace, i.commands@, i.commands@.len() as int),
                },
            ),
            None => None,
        }
    }
}

/// The body of a command depends on its wire format only by value.
pub proof fn lemma_body_by_view(
    ns: Seq<Seq<u8>>,
    items: Seq<IpcFileItem>,
    iface_name: Seq<u8>,
    cmd_name: Seq<u8>,
    iv: InterfaceView,
    w1: CommandWireFormatInfo,
    w2: CommandWireFormatInfo,
)
    requires
        w1@ == w2@,
    ensures
        command_body_spec(ns, items, iface_name, cmd_name, iv, w1) == command_body_spec(ns, items, iface_name, cmd_name, iv, w2),
{
    let a1 = raw_in_fields(w1.raw_data_in@);
    let a2 = raw_in_fields(w2.raw_data_in@);
    assert(w1.raw_data_in@.len() == w1@.raw_data_in.len());
    assert(w2.raw_data_in@.len() == w2@.raw_data_in.len());
    assert forall|k: int| 0 <= k < a1.len() implies (#[trigger] a1[k]).ty@ == a2[k].ty@ by {
        assert(w1@.raw_data_in[k] == w1.raw_data_in@[k]@);
        assert(w2@.raw_data_in[k] == w2.raw_data_in@[k]@);
    }
    lemma_fields_layout_by_view(items, a1, a2, a1.len() as int, layout_depth());
    let b1 = raw_out_fields(w1.raw_data_out@);
    let b2 = raw_out_fields(w2.raw_data_out@);
    assert(w1.raw_data_out@.len() == w1@.raw_data_out.len());
    assert(w2.raw_data_out@.len() == w2@.raw_data_out.len());
    assert forall|k: int| 0 <= k < b1.len() implies (#[trigger] b1[k]).ty@ == b2[k].ty@ by {
        assert(w1@.raw_data_out[k] == w1.raw_data_out@[k]@);
        assert(w2@.raw_data_out[k] == w2.raw_data_out@[k]@);
    }
    lemma_fields_layout_by_view(items, b1, b2, b1.len() as int, layout_depth());
    assert(w1.is_domain == w2.is_domain);
    assert(w1.raw_data_in@.map_values(|d: crate::swipc::wire_format::RawDataIn| d@) == w1@.raw_data_in);
    assert(w2.raw_data_in@.map_values(|d: crate::swipc::wire_format::RawDataIn| d@) == w2@.raw_data_in);
}

/// Append the parameters after `&self`.
fn push_params(t: &mut Vec<u8>, args: &Vec<(Vec<u8>, crate::swipc::codegen::TypeTokens)>)
    ensures
        final(t)@ == old(t)@ + params_text(named_view(args@)),
{
    let ghost o = t@;
    let ghost av = named_view(args@);
    let mut i: usize = 0;
    while i < args.len()
        invariant
            i <= args@.len(),
            o == old(t)@,
            av == named_view(args@),
            t@ == o + params_text(av.take(i as int)),
        decreases args@.len() - i,
    {
        assert(av.take(i + 1).drop_last() =~= av.take(i as int));
        push_bytes(t, ", ".as_bytes());
        push_bytes(t, args[i].0.as_slice());
        push_bytes(t, ": ".as_bytes());
        push_bytes(t, args[i].1.text.as_slice());
        i = i + 1;
    }
    assert(av.take(av.len() as int) =~= av);
}

/// Append the type the command returns.
fn push_return_type(t: &mut Vec<u8>, results: &Vec<(Vec<u8>, crate::swipc::codegen::TypeTokens)>)
    ensures
        final(t)@ == old(t)@ + return_type_text(named_view(results@)),
{
    if results.len() == 1 {
        push_bytes(t, results[0].1.text.as_slice());
    } else {
        let ghost rv = named_view(results@);
        let ghost tys = rv.map_values(|p: (Seq<u8>, TokensView)| p.1.text);
        let mut l: Vec<u8> = Vec::new();
        let mut i: usize = 0;
        while i < results.len()
            invariant
                i <= results@.len(),
                rv == named_view(results@),
                tys == rv.map_values(|p: (Seq<u8>, TokensView)| p.1.text),
                l@ == listed(tys.take(i as int)),
            decreases results@.len() - i,
        {
            assert(tys.take(i + 1).drop_last() =~= tys.take(i as int));
            push_bytes(&mut l, results[i].1.text.as_slice());
            push_bytes(&mut l, ", ".as_bytes());
            i = i + 1;
        }
        assert(tys.take(tys.len() as int) =~= tys);
        if l.len() >= 2 {
            let ghost full = l@;
            l.pop();
            l.pop();
            assert(l@ =~= full.take(full.len() - 2));
        }
        push_bytes(t, "(".as_bytes());
        push_bytes(t, l.as_slice());
        push_bytes(t, ")".as_bytes());
    }
}

/// The method generated for `command` of interface `iface_name`, from what
/// `collect_command_info` gathered of it.
pub fn make_command(
    namespace: &Vec<Vec<u8>>,
    file: &IpcFile,
    iface_name: &Vec<u8>,
    command: &Command,
    i_info: &CommandInterfaceInfo,
    w_info: &CommandWireFormatInfo,
) -> (r: Option<Vec<u8>>)
    requires
        valid_utf8(command.name@),
        w_info.buffers@.len() <= 8,
        w_info.handles_in@.len() <= 8,
        w_info.handles_out@.len() <= 8,
    ensures
        match command_method_spec(namespace@.map_values(|p: Vec<u8>| p@), file.items_spec(), iface_name@, *command, i_info@, *w_info) {
            Some(v) => r matches Some(t) && t@ == v,
            None => r is None,
        },
{
    let body = match make_command_body(namespace, file, iface_name, &command.name, i_info, w_info) {
        Some(b) => b,
        None => {
            return None;
        },
    };
    let mut t: Vec<u8> = Vec::new();
    push_bytes(&mut t, "pub fn ".as_bytes());
    let name = cased_bytes(command.name.as_slice(), NameCase::Snake);
    push_bytes(&mut t, name.as_slice());
    push_bytes(&mut t, "(&self".as_bytes());
    push_params(&mut t, &i_info.args);
    push_bytes(&mut t, ") -> Result<".as_bytes());
    push_return_type(&mut t, &i_info.results);
    push_bytes(&mut t, "> {\n".as_bytes());
    push_bytes(&mut t, body.as_slice());
    push_bytes(&mut t, "}\n".as_bytes());
    Some(t)
}

proof fn lemma_commands_none_stays(ns: Seq<Seq<u8>>, items: Seq<IpcFileItem>, name: Seq<u8>, cs: Seq<Command>, m: int, n: int)
    requires
        0 <= m <= n,
        commands_text(ns, items, name, cs, m) is None,
    ensures
        commands_text(ns, items, name, cs, n) is None,
    decreases n - m,
{
    if m < n {
        lemma_commands_none_stays(ns, items, name, cs, m, n - 1);
    }
}

/// The method generated for `command` of interface `iface_name` in the
/// module of namespace `namespace`; `None` where the generator does not
/// handle the command.
pub fn command_text(namespace: &Vec<Vec<u8>>, file: &IpcFile, iface_name: &Vec<u8>, c: &Command) -> (r: Option<Vec<u8>>)
    requires
        valid_utf8(c.name@),
    ensures
        match command_text_spec(namespace@.map_values(|p: Vec<u8>| p@), file.items_spec(), iface_name@, *c) {
            Some(v) => r matches Some(t) && t@ == v,
            None => r is None,
        },
{
    reveal(command_text_spec);
    if !command_supported(namespace, file, false, c) {
        return None;
    }
    let (iinfo, winfo) = collect_command_info(namespace, file, false, c);
    let ghost wv = winfo@;
    proof {
        let w = choose|w: CommandWireFormatInfo| w@ == wv;
        lemma_body_by_view(namespace@.map_values(|p: Vec<u8>| p@), file.items_spec(), iface_name@, c.name@, iinfo@, winfo, w);
    }
    make_command(namespace, file, iface_name, c, &iinfo, &winfo)
}

/// The methods of an interface's commands, each followed by a blank line.
fn gen_methods(file: &IpcFile, i: &Interface) -> (r: Option<Vec<u8>>)
    requires
        forall|k: int| 0 <= k < i.commands@.len() ==> valid_utf8((#[trigger] i.commands@[k]).name@),
    ensures
        match commands_text(i.name@.namespace, file.items_spec(), i.name@.ident, i.commands@, i.commands@.len() as int) {
            Some(v) => r matches Some(t) && t@ == v,
            None => r is None,
        },
{
    let ghost ns = i.name@.namespace;
    let ghost items = file.items_spec();
    let ghost cs = i.commands@;
    let mut methods: Vec<u8> = Vec::new();
    let mut k: usize = 0;
    while k < i.commands.len()
        invariant
            k <= cs.len(),
            cs == i.commands@,
            ns == i.name@.namespace,
            ns == i.name.namespace@.map_values(|p: Vec<u8>| p@),
            items == file.items_spec(),
            forall|j: int| 0 <= j < i.commands@.len() ==> valid_utf8((#[trigger] i.commands@[j]).name@),
            commands_text(ns, items, i.name@.ident, cs, k as int) == Some(methods@),
        decreases cs.len() - k,
    {
        let c = &i.commands[k];
        assert(*c == cs[k as int]);
        let m = match command_text(&i.name.namespace, file, &i.name.ident, c) {
            Some(m) => m,
            None => {
                proof {
                    lemma_commands_none_stays(ns, items, i.name@.ident, cs, k + 1, cs.len() as int);
                }
                return None;
            },
        };
        push_bytes(&mut methods, m.as_slice());
        push_bytes(&mut methods, "\n".as_bytes());
        k = k + 1;
    }
    Some(methods)
}

/// The text of an interface's client object.
fn interface_text_of(name: &[u8], methods: &[u8]) -> (r: Vec<u8>)
    ensures
        r@ == interface_text(name@, methods@),
{
    let mut t: Vec<u8> = Vec::new();
    push_bytes(&mut t, "pub struct ".as_bytes());
    push_bytes(&mut t, name);
    push_bytes(&mut t, "<S: HandleStorage = OwnedHandle> {\n    pub(crate) handle: S,\n}\nimpl<S: HandleStorage> ".as_bytes());
    push_bytes(&mut t, name);
    push_bytes(&mut t, "<S> {\n    pub fn new(handle: S) -> Self {\n        Self { handle }\n    }\n    pub fn into_inner(self) -> S {\n        self.handle\n    }\n".as_bytes());
    push_bytes(&mut t, methods);
    push_bytes(&mut t, "}\nimpl ".as_bytes());
    push_bytes(&mut t, name);
    push_bytes(&mut t, "<OwnedHandle> {\n    pub fn as_ref(&self) -> ".as_bytes());
    push_bytes(&mut t, name);
    push_bytes(&mut t, "<RefHandle<'_>> {\n        ".as_bytes());
    push_bytes(&mut t, name);
    push_bytes(&mut t, " { handle: self.handle.as_ref() }\n    }\n    pub fn into_shared(self) -> ".as_bytes());
    push_bytes(&mut t, name);
    push_bytes(&mut t, "<SharedHandle> {\n        ".as_bytes());
    push_bytes(&mut t, name);
    push_bytes(&mut t, " { handle: SharedHandle::new(self.handle.leak()) }\n    }\n}\nimpl ::core::fmt::Debug for ".as_bytes());
    push_bytes(&mut t, name);
    push_bytes(&mut t, " {\n    fn fmt(&self, f: &mut ::core::fmt::Formatter<'_>) -> ::core::fmt::Result {\n        write!(f, \"".as_bytes());
    push_bytes(&mut t, name);
    push_bytes(&mut t, "({})\", self.handle)\n    }\n}\n\n".as_bytes());
    t
}

/// Append an import.
fn push_import(out: &mut Vec<(Vec<u8>, Vec<u8>)>, path: &str, item: &str)
    ensures
        final(out)@.map_values(|p: (Vec<u8>, Vec<u8>)| (p.0@, p.1@)) == old(out)@.map_values(
            |p: (Vec<u8>, Vec<u8>)| (p.0@, p.1@),
        ).push((path.spec_bytes(), item.spec_bytes())),
{
    let ghost o = out@.map_values(|p: (Vec<u8>, Vec<u8>)| (p.0@, p.1@));
    let mut a: Vec<u8> = Vec::new();
    push_bytes(&mut a, path.as_bytes());
    let mut b: Vec<u8> = Vec::new();
    push_bytes(&mut b, item.as_bytes());
    out.push((a, b));
    assert(out@.map_values(|p: (Vec<u8>, Vec<u8>)| (p.0@, p.1@)) =~= o.push((path.spec_bytes(), item.spec_bytes())));
}

/// The runtime's items that the client code names.
fn runtime_import_list() -> (r: Vec<(Vec<u8>, Vec<u8>)>)
    ensures
        r@.map_values(|p: (Vec<u8>, Vec<u8>)| (p.0@, p.1@)) == runtime_imports(),
{
    let mut r: Vec<(Vec<u8>, Vec<u8>)> = Vec::new();
    assert(r@.map_values(|p: (Vec<u8>, Vec<u8>)| (p.0@, p.1@)) =~= Seq::<(Seq<u8>, Seq<u8>)>::empty());
    push_import(&mut r, "horizon_ipc::handle_storage", "HandleStorage");
    push_import(&mut r, "horizon_ipc::handle_storage", "OwnedHandle");
    push_import(&mut r, "horizon_ipc::handle_storage", "RefHandle");
    push_import(&mut r, "horizon_ipc::handle_storage", "SharedHandle");
    push_import(&mut r, "horizon_error", "Result");
    push_import(&mut r, "horizon_error", "ErrorCode");
    push_import(&mut r, "horizon_ipc", "RawHandle");
    push_import(&mut r, "horizon_ipc::raw::hipc", "HipcHeader");
    push_import(&mut r, "horizon_ipc::raw::hipc", "HipcSpecialHeader");
    push_import(&mut r, "horizon_ipc::raw::hipc", "HipcInPointerBufferDescriptor");
    push_import(&mut r, "horizon_ipc::raw::hipc", "HipcOutPointerBufferDescriptor");
    push_import(&mut r, "horizon_ipc::raw::hipc", "HipcMapAliasBufferDescriptor");
    push_import(&mut r, "horizon_ipc::raw::cmif", "CmifInHeader");
    push_import(&mut r, "horizon_ipc::raw::cmif", "CmifOutHeader");
    push_import(&mut r, "horizon_ipc::cmif", "CommandType");
    push_import(&mut r, "horizon_ipc::hipc", "MapAliasBufferMode");
    push_import(&mut r, "horizon_ipc::buffer", "get_ipc_buffer_ptr");
    push_import(&mut r, "core::mem", "MaybeUninit");
    assert(r@.map_values(|p: (Vec<u8>, Vec<u8>)| (p.0@, p.1@)) =~= runtime_imports());
    r
}

/// Append what the types of named arguments or results import.
fn push_tokens_imports(out: &mut Vec<(Vec<u8>, Vec<u8>)>, s: &Vec<(Vec<u8>, crate::swipc::codegen::TypeTokens)>)
    ensures
        final(out)@.map_values(|p: (Vec<u8>, Vec<u8>)| (p.0@, p.1@)) == old(out)@.map_values(
            |p: (Vec<u8>, Vec<u8>)| (p.0@, p.1@),
        ) + tokens_imports(named_view(s@)),
{
    let ghost o = out@.map_values(|p: (Vec<u8>, Vec<u8>)| (p.0@, p.1@));
    let ghost sv = named_view(s@);
    let mut i: usize = 0;
    while i < s.len()
        invariant
            i <= s@.len(),
            o == old(out)@.map_values(|p: (Vec<u8>, Vec<u8>)| (p.0@, p.1@)),
            sv == named_view(s@),
            out@.map_values(|p: (Vec<u8>, Vec<u8>)| (p.0@, p.1@)) == o + tokens_imports(sv.take(i as int)),
        decreases s@.len() - i,
    {
        assert(sv.take(i + 1).drop_last() =~= sv.take(i as int));
        let ghost before = out@.map_values(|p: (Vec<u8>, Vec<u8>)| (p.0@, p.1@));
        match &s[i].1.import {
            Some((a, b)) => {
                out.push((crate::swipc::text::copy_bytes(a.as_slice()), crate::swipc::text::copy_bytes(b.as_slice())));
                assert(out@.map_values(|p: (Vec<u8>, Vec<u8>)| (p.0@, p.1@)) =~= before.push((a@, b@)));
            },
            None => {},
        }
        assert(out@.map_values(|p: (Vec<u8>, Vec<u8>)| (p.0@, p.1@)) =~= o + tokens_imports(sv.take(i + 1)));
        i = i + 1;
    }
    assert(sv.take(sv.len() as int) =~= sv);
}

/// What the signatures of an interface's commands import.
fn interface_imports(i: &Interface) -> (r: Vec<(Vec<u8>, Vec<u8>)>)
    ensures
        r@.map_values(|p: (Vec<u8>, Vec<u8>)| (p.0@, p.1@)) == runtime_imports() + commands_imports(
            i.name@.namespace,
            i.commands@,
            i.commands@.len() as int,
        ),
{
    let ghost ns = i.name@.namespace;
    let ghost cs = i.commands@;
    let mut out = runtime_import_list();
    let mut k: usize = 0;
    while k < i.commands.len()
        invariant
            k <= cs.len(),
            cs == i.commands@,
            ns == i.name@.namespace,
            ns == i.name.namespace@.map_values(|p: Vec<u8>| p@),
            out@.map_values(|p: (Vec<u8>, Vec<u8>)| (p.0@, p.1@)) == runtime_imports() + commands_imports(ns, cs, k as int),
        decreases cs.len() - k,
    {
        assert(i.commands[k as int] == cs[k as int]);
        match interface_info_of(&i.name.namespace, &i.commands[k]) {
            Some(info) => {
                push_tokens_imports(&mut out, &info.args);
                push_tokens_imports(&mut out, &info.results);
            },
            None => {},
        }
        proof {
            assert(commands_imports(ns, cs, k + 1) == commands_imports(ns, cs, k as int) + match interface_info_spec(ns, cs[k as int]) {
                Some(iv) => tokens_imports(iv.args) + tokens_imports(iv.results),
                None => Seq::empty(),
            });
        }
        assert(out@.map_values(|p: (Vec<u8>, Vec<u8>)| (p.0@, p.1@)) =~= runtime_imports() + commands_imports(ns, cs, k + 1));
        k = k + 1;
    }
    out
}

/// The code for an interface, with its imports: `None` for a domain
/// interface, or where the generator does not handle one of its commands.
pub fn gen_interface(file: &IpcFile, i: &Interface) -> (r: Option<GeneratedItem>)
    requires
        forall|k: int| 0 <= k < i.commands@.len() ==> valid_utf8((#[trigger] i.commands@[k]).name@),
    ensures
        match interface_spec(file.items_spec(), *i) {
            Some(v) => r matches Some(g) && g@ == v,
            None => r is None,
        },
{
    if i.is_domain {
        return None;
    }
    let methods = match gen_methods(file, i) {
        Some(m) => m,
        None => {
            return None;
        },
    };
    let t = interface_text_of(i.name.ident.as_slice(), methods.as_slice());
    let imports = interface_imports(i);
    Some(GeneratedItem { namespace: copy_parts(&i.name.namespace), text: t, imports })
}

/// Whether the names of an interface's commands are UTF-8 text.
pub open spec fn commands_utf8(i: Interface) -> bool {
    forall|k: int| 0 <= k < i.commands@.len() ==> valid_utf8((#[trigger] i.commands@[k]).name@)
}

/// The code for one item of a file.
#[verifier::opaque]
pub open spec fn item_code_spec(items: Seq<IpcFileItem>, it: IpcFileItem) -> Option<GeneratedView> {
    match it {
        IpcFileItem::TypeAlias(a) => type_alias_spec(a),
        IpcFileItem::StructDef(s) => struct_spec(items, s),
        IpcFileItem::EnumDef(e) => Some(enum_spec(e)),
        IpcFileItem::BitflagsDef(b) => Some(bitflags_spec(b)),
        IpcFileItem::InterfaceDef(i) => if commands_utf8(i) {
            interface_spec(items, i)
        } else {
            None
        },
    }
}

/// The code for the first `n` items of a file, in order; `None` where the
/// generator does not handle one of them.
pub open spec fn file_code_spec(items: Seq<IpcFileItem>, n: int) -> Option<Seq<GeneratedView>>
    decreases n,
{
    if n <= 0 {
        Some(Seq::empty())
    } else {
        match (file_code_spec(items, n - 1), item_code_spec(items, items[n - 1])) {
            (Some(a), Some(b)) => Some(a.push(b)),
            _ => None,
        }
    }
}

/// The code for every item of a file, each with the module it goes into.
pub open spec fn ipc_file_code(items: Seq<IpcFileItem>) -> Option<Seq<GeneratedView>> {
    file_code_spec(items, items.len() as int)
}

/// Whether the names of an interface's commands are UTF-8 text.
fn names_are_utf8(i: &Interface) -> (r: bool)
    ensures
        r == commands_utf8(*i),
{
    let mut k: usize = 0;
    while k < i.commands.len()
        invariant
            k <= i.commands@.len(),
            forall|j: int| 0 <= j < k ==> valid_utf8((#[trigger] i.commands@[j]).name@),
        decreases i.commands@.len() - k,
    {
        if str_from_utf8(i.commands[k].name.as_slice()).is_err() {
            return false;
        }
        k = k + 1;
    }
    true
}

/// The code for one item.
fn gen_item(file: &IpcFile, it: &IpcFileItem) -> (r: Option<GeneratedItem>)
    ensures
        match item_code_spec(file.items_spec(), *it) {
            Some(v) => r matches Some(g) && g@ == v,
            None => r is None,
        },
{
    reveal(item_code_spec);
    match it {
        IpcFileItem::TypeAlias(a) => gen_type_alias(a),
        IpcFileItem::StructDef(s) => gen_struct(file, s),
        IpcFileItem::EnumDef(e) => Some(gen_enum(e)),
        IpcFileItem::BitflagsDef(b) => Some(gen_bitflags(b)),
        IpcFileItem::InterfaceDef(i) => {
            if names_are_utf8(i) {
                gen_interface(file, i)
            } else {
                None
            }
        },
    }
}

proof fn lemma_file_none_stays(items: Seq<IpcFileItem>, m: int, n: int)
    requires
        0 <= m <= n,
        file_code_spec(items, m) is None,
    ensures
        file_code_spec(items, n) is None,
    decreases n - m,
{
    if m < n {
        lemma_file_none_stays(items, m, n - 1);
    }
}

/// The code for every item of a file, in order, each with the namespace of
/// the module it goes into: `None` where the generator does not handle an
/// item (see the item generators).
pub fn gen_ipc_file(file: &IpcFile) -> (r: Option<Vec<GeneratedItem>>)
    ensures
        match ipc_file_code(file.items_spec()) {
            Some(v) => r matches Some(g) && g@.map_values(|x: GeneratedItem| x@) == v,
            None => r is None,
        },
{
    let items = file.items();
    let ghost its = file.items_spec();
    let mut out: Vec<GeneratedItem> = Vec::new();
    let mut k: usize = 0;
    while k < items.len()
        invariant
            k <= items@.len(),
            items@ == its,
            its == file.items_spec(),
            file_code_spec(its, k as int) == Some(out@.map_values(|x: GeneratedItem| x@)),
        decreases items@.len() - k,
    {
        let g = match gen_item(file, &items[k]) {
            Some(g) => g,
            None => {
                proof {
                    lemma_file_none_stays(its, k + 1, its.len() as int);
                }
                return None;
            },
        };
        let ghost o = out@.map_values(|x: GeneratedItem| x@);
        let ghost gv = g@;
        out.push(g);
        assert(out@.map_values(|x: GeneratedItem| x@) =~= o.push(gv));
        k = k + 1;
    }
    Some(out)
}

} // verus!
