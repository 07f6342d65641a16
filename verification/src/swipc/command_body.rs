//! The statements of a generated command that read the response: the
//! pattern that takes the response apart, the early return of an error
//! code, the checks of the response's header, turning received handles into
//! owned handles or interface objects, and the value returned; and the name
//! of the file a generated module goes into.

use vstd::prelude::*;
use crate::swipc::codegen::{TokensView, TypeTokens, import_in, import_spec};
use crate::swipc::message_struct::{
    packed_struct, packed_struct_text, raw_in_type_spec, raw_out_type_spec, request_fields_spec, response_fields_spec,
};
use crate::swipc::raw_data::{raw_data_in_spec, raw_data_out_struct_spec};
use crate::swipc::request_init::{request_init_spec, request_literal, request_literal_text};
use crate::swipc::typecheck::IpcFile;
use crate::swipc::model::IpcFileItem;
use crate::swipc::model::{BufferTransferMode, Direction, HandleTransferType};
use crate::swipc::text::{decimal, push_bytes, push_decimal};
use crate::swipc::wire_format::{
    CommandInterfaceInfo, InterfaceView, fields_size_spec, named_view, raw_in_fields, raw_out_fields,
    request_sizes_spec, CommandWireFormatInfo, HandleOut, HandleOutView, RawOutView, WireView, buffers_with, handles_by,
    lemma_buffers_with_len, response_sizes_spec,
};
use vstd::string::StringSliceAdditionalSpecFns;

verus! {

/// Each part followed by `/`.
pub open spec fn slashed(parts: Seq<Seq<u8>>) -> Seq<u8>
    decreases parts.len(),
{
    if parts.len() == 0 {
        Seq::empty()
    } else {
        slashed(parts.drop_last()) + parts.last() + "/".spec_bytes()
    }
}

/// The file of the module of namespace `ns`: `mod.rs` in its directory when
/// it has child modules, else a file named after its last part.
pub open spec fn filename_spec(ns: Seq<Seq<u8>>, is_directory: bool) -> Seq<u8> {
    let d = slashed(ns);
    if is_directory {
        d + "mod.rs".spec_bytes()
    } else if d.len() > 0 {
        d.drop_last() + ".rs".spec_bytes()
    } else {
        ".rs".spec_bytes()
    }
}

/// The path of the file that holds the generated module of `namespace`.
pub fn filename_for_namespace(namespace: &Vec<Vec<u8>>, is_directory: bool) -> (r: Vec<u8>)
    ensures
        r@ == filename_spec(namespace@.map_values(|p: Vec<u8>| p@), is_directory),
{
    let ghost ns = namespace@.map_values(|p: Vec<u8>| p@);
    let mut r: Vec<u8> = Vec::new();
    let mut i: usize = 0;
    while i < namespace.len()
        invariant
            i <= namespace@.len(),
            ns == namespace@.map_values(|p: Vec<u8>| p@),
            r@ == slashed(ns.take(i as int)),
        decreases namespace@.len() - i,
    {
        assert(ns.take(i + 1).drop_last() =~= ns.take(i as int));
        push_bytes(&mut r, namespace[i].as_slice());
        push_bytes(&mut r, "/".as_bytes());
        i = i + 1;
    }
    assert(ns.take(ns.len() as int) =~= ns);
    if is_directory {
        push_bytes(&mut r, "mod.rs".as_bytes());
    } else {
        let ghost d = r@;
        if r.len() > 0 {
            r.pop();
            assert(r@ =~= d.drop_last());
        }
        push_bytes(&mut r, ".rs".as_bytes());
    }
    r
}

/// The names, each followed by `, `.
pub open spec fn listed(names: Seq<Seq<u8>>) -> Seq<u8>
    decreases names.len(),
{
    if names.len() == 0 {
        Seq::empty()
    } else {
        listed(names.drop_last()) + names.last() + ", ".spec_bytes()
    }
}

/// The names separated by `, `.
pub open spec fn joined_names(names: Seq<Seq<u8>>) -> Seq<u8> {
    let l = listed(names);
    if l.len() >= 2 {
        l.take(l.len() - 2)
    } else {
        l
    }
}

/// The pattern the raw output data is taken apart with: nothing, the one
/// value, or the fields of the `Out` structure.
pub open spec fn raw_out_pattern(raw: Seq<RawOutView>) -> Seq<u8> {
    if raw.len() == 0 {
        "()".spec_bytes()
    } else if raw.len() == 1 {
        raw[0].name
    } else {
        "Out { ".spec_bytes() + listed(raw.map_values(|d: RawOutView| d.name)) + "}".spec_bytes()
    }
}

/// The handle fields of the response, each bound to the handle's name.
pub open spec fn handle_bindings(hs: Seq<HandleOutView>) -> Seq<u8>
    decreases hs.len(),
{
    if hs.len() == 0 {
        Seq::empty()
    } else {
        handle_bindings(hs.drop_last()) + "    handle_".spec_bytes() + hs.last().name + ": ".spec_bytes() + hs.last().name
            + ",\n".spec_bytes()
    }
}

/// The pattern that takes the response apart: the HIPC header, the special
/// header and the handles when there are any, the CMIF header and the raw
/// output data.
pub open spec fn response_pattern_spec(w: WireView) -> Seq<u8> {
    "Response {\n    hipc,\n".spec_bytes() + (if w.handles_out.len() > 0 {
        "    special_header,\n".spec_bytes() + handle_bindings(w.handles_out)
    } else {
        Seq::empty()
    }) + "    cmif,\n    raw_data: ".spec_bytes() + raw_out_pattern(w.raw_data_out) + ",\n    ..\n}".spec_bytes()
}

/// The early return of an error code. A server that fails sends no handles,
/// so where handles are expected and the special header is missing, the
/// result is read at the offset it has without one.
pub open spec fn error_return_spec(w: WireView) -> Seq<u8> {
    if w.handles_out.len() == 0 {
        "if cmif.result.is_failure() {\n    return Err(cmif.result);\n}\n".spec_bytes()
    } else {
        "if hipc.has_special_header() != 0 {\n    if cmif.result.is_failure() {\n        return Err(cmif.result);\n    }\n} else {\n    return Err(unsafe { ::core::ptr::read(ipc_buffer_ptr.offset(".spec_bytes()
            + decimal(response_sizes_spec(w, 0).3 as nat)
            + ") as *const ErrorCode) });\n}\n".spec_bytes()
    }
}

/// The checks of the response's headers, made in debug builds: the pointer
/// descriptors of the outgoing pointer buffers, no map-alias buffers, no
/// `C` descriptors, the special header exactly when handles are expected,
/// with no process id and the expected numbers of copied and moved handles,
/// and the CMIF magic.
pub open spec fn check_response_spec(w: WireView) -> Seq<u8> {
    let n = w.buffers.len() as int;
    let out_ptr = buffers_with(w.buffers, Direction::Out, BufferTransferMode::Pointer, n).len();
    let kinds = w.handles_out.map_values(|h: HandleOutView| h.transfer_type);
    let special = w.handles_out.len() > 0;
    "debug_assert_eq!(hipc.num_in_pointers(), ".spec_bytes() + decimal(out_ptr)
        + ");\ndebug_assert_eq!(hipc.num_in_map_aliases(), 0);\ndebug_assert_eq!(hipc.num_out_map_aliases(), 0);\ndebug_assert_eq!(hipc.num_inout_map_aliases(), 0);\ndebug_assert_eq!(hipc.out_pointer_mode(), 0);\ndebug_assert_eq!(hipc.has_special_header(), ".spec_bytes()
        + (if special { "1".spec_bytes() } else { "0".spec_bytes() }) + ");\n".spec_bytes() + (if special {
        "debug_assert_eq!(special_header.send_pid(), 0);\ndebug_assert_eq!(special_header.num_copy_handles(), ".spec_bytes()
            + decimal(handles_by(kinds, HandleTransferType::Copy, kinds.len() as int))
            + ");\ndebug_assert_eq!(special_header.num_move_handles(), ".spec_bytes() + decimal(
            handles_by(kinds, HandleTransferType::Move, kinds.len() as int),
        ) + ");\n".spec_bytes()
    } else {
        Seq::empty()
    }) + "debug_assert_eq!(cmif.magic, CmifOutHeader::MAGIC);\n".spec_bytes()
}

/// Each received handle turned into an owned handle, or into an object of
/// the interface it is a session of, named in the module of namespace `ns`.
pub open spec fn handle_transforms(ns: Seq<Seq<u8>>, hs: Seq<HandleOutView>) -> Seq<u8>
    decreases hs.len(),
{
    if hs.len() == 0 {
        Seq::empty()
    } else {
        let h = hs.last();
        handle_transforms(ns, hs.drop_last()) + "let ".spec_bytes() + h.name + " = ".spec_bytes() + (match h.interface {
            Some(i) => import_spec(ns, i).text + " { handle: OwnedHandle::new(".spec_bytes() + h.name + ") };\n".spec_bytes(),
            None => "OwnedHandle::new(".spec_bytes() + h.name + ");\n".spec_bytes(),
        })
    }
}

/// The value returned: nothing, the one result, or the tuple of them.
pub open spec fn ok_return_spec(results: Seq<Seq<u8>>) -> Seq<u8> {
    if results.len() == 0 {
        "Ok(())".spec_bytes()
    } else if results.len() == 1 {
        "Ok(".spec_bytes() + results[0] + ")".spec_bytes()
    } else {
        "Ok((".spec_bytes() + joined_names(results) + "))".spec_bytes()
    }
}

/// Append the names, each followed by `, `.
fn push_listed(t: &mut Vec<u8>, names: &Vec<Vec<u8>>)
    ensures
        final(t)@ == old(t)@ + listed(names@.map_values(|n: Vec<u8>| n@)),
{
    let ghost o = t@;
    let ghost nv = names@.map_values(|n: Vec<u8>| n@);
    let mut i: usize = 0;
    while i < names.len()
        invariant
            i <= names@.len(),
            nv == names@.map_values(|n: Vec<u8>| n@),
            o == old(t)@,
            t@ == o + listed(nv.take(i as int)),
        decreases names@.len() - i,
    {
        assert(nv.take(i + 1).drop_last() =~= nv.take(i as int));
        push_bytes(t, names[i].as_slice());
        push_bytes(t, ", ".as_bytes());
        i = i + 1;
    }
    assert(nv.take(nv.len() as int) =~= nv);
}

/// The value the generated command returns, for results named `results`.
pub fn make_ok_return(results: &Vec<Vec<u8>>) -> (r: Vec<u8>)
    ensures
        r@ == ok_return_spec(results@.map_values(|n: Vec<u8>| n@)),
{
    let mut t: Vec<u8> = Vec::new();
    if results.len() == 0 {
        push_bytes(&mut t, "Ok(())".as_bytes());
    } else if results.len() == 1 {
        push_bytes(&mut t, "Ok(".as_bytes());
        push_bytes(&mut t, results[0].as_slice());
        push_bytes(&mut t, ")".as_bytes());
    } else {
        push_bytes(&mut t, "Ok((".as_bytes());
        let mut l: Vec<u8> = Vec::new();
        push_listed(&mut l, results);
        if l.len() >= 2 {
            let ghost full = l@;
            l.pop();
            l.pop();
            assert(l@ =~= full.take(full.len() - 2));
        }
        push_bytes(&mut t, l.as_slice());
        push_bytes(&mut t, "))".as_bytes());
    }
    t
}

impl CommandWireFormatInfo {
    /// The pattern that takes the response apart.
    pub fn make_response_pattern(&self) -> (r: Vec<u8>)
        ensures
            r@ == response_pattern_spec(self@),
    {
        let mut t: Vec<u8> = Vec::new();
        push_bytes(&mut t, "Response {\n    hipc,\n".as_bytes());
        if self.has_out_special_header() {
            push_bytes(&mut t, "    special_header,\n".as_bytes());
            let ghost o = t@;
            let ghost hs = self@.handles_out;
            let mut i: usize = 0;
            while i < self.handles_out.len()
                invariant
                    i <= self@.handles_out.len(),
                    hs == self@.handles_out,
                    t@ == o + handle_bindings(hs.take(i as int)),
                decreases self@.handles_out.len() - i,
            {
                assert(hs.take(i + 1).drop_last() =~= hs.take(i as int));
                push_bytes(&mut t, "    handle_".as_bytes());
                push_bytes(&mut t, self.handles_out[i].name.as_slice());
                push_bytes(&mut t, ": ".as_bytes());
                push_bytes(&mut t, self.handles_out[i].name.as_slice());
                push_bytes(&mut t, ",\n".as_bytes());
                i = i + 1;
            }
            assert(hs.take(hs.len() as int) =~= hs);
        }
        push_bytes(&mut t, "    cmif,\n    raw_data: ".as_bytes());
        if self.raw_data_out.len() == 0 {
            push_bytes(&mut t, "()".as_bytes());
        } else if self.raw_data_out.len() == 1 {
            push_bytes(&mut t, self.raw_data_out[0].name.as_slice());
        } else {
            push_bytes(&mut t, "Out { ".as_bytes());
            let ghost o = t@;
            let ghost names = self@.raw_data_out.map_values(|d: RawOutView| d.name);
            let mut i: usize = 0;
            while i < self.raw_data_out.len()
                invariant
                    i <= self@.raw_data_out.len(),
                    names == self@.raw_data_out.map_values(|d: RawOutView| d.name),
                    t@ == o + listed(names.take(i as int)),
                decreases self@.raw_data_out.len() - i,
            {
                assert(names.take(i + 1).drop_last() =~= names.take(i as int));
                push_bytes(&mut t, self.raw_data_out[i].name.as_slice());
                push_bytes(&mut t, ", ".as_bytes());
                i = i + 1;
            }
            assert(names.take(names.len() as int) =~= names);
            push_bytes(&mut t, "}".as_bytes());
        }
        push_bytes(&mut t, ",\n    ..\n}".as_bytes());
        t
    }

    /// The early return of an error code read from the response.
    pub fn make_error_return(&self) -> (r: Vec<u8>)
        requires
            self.buffers@.len() <= 8,
        ensures
            r@ == error_return_spec(self@),
    {
        let mut t: Vec<u8> = Vec::new();
        if !self.has_out_special_header() {
            push_bytes(&mut t, "if cmif.result.is_failure() {\n    return Err(cmif.result);\n}\n".as_bytes());
        } else {
            let out_ptr = self.out_pointer_buffers().len() as u64;
            proof {
                lemma_buffers_with_len(self@.buffers, Direction::Out, BufferTransferMode::Pointer, self@.buffers.len() as int);
            }
            let alt0 = 8 + 8 * out_ptr;
            let alt = alt0 + (16 - alt0 % 16) % 16 + 8;
            push_bytes(&mut t, "if hipc.has_special_header() != 0 {\n    if cmif.result.is_failure() {\n        return Err(cmif.result);\n    }\n} else {\n    return Err(unsafe { ::core::ptr::read(ipc_buffer_ptr.offset(".as_bytes());
            push_decimal(&mut t, alt);
            push_bytes(&mut t, ") as *const ErrorCode) });\n}\n".as_bytes());
        }
        t
    }

    /// The checks of the response's headers.
    pub fn make_check_response(&self) -> (r: Vec<u8>)
        ensures
            r@ == check_response_spec(self@),
    {
        let mut t: Vec<u8> = Vec::new();
        push_bytes(&mut t, "debug_assert_eq!(hipc.num_in_pointers(), ".as_bytes());
        push_decimal(&mut t, self.out_pointer_buffers().len() as u64);
        push_bytes(&mut t, ");\ndebug_assert_eq!(hipc.num_in_map_aliases(), 0);\ndebug_assert_eq!(hipc.num_out_map_aliases(), 0);\ndebug_assert_eq!(hipc.num_inout_map_aliases(), 0);\ndebug_assert_eq!(hipc.out_pointer_mode(), 0);\ndebug_assert_eq!(hipc.has_special_header(), ".as_bytes());
        let special = self.has_out_special_header();
        if special {
            push_bytes(&mut t, "1".as_bytes());
        } else {
            push_bytes(&mut t, "0".as_bytes());
        }
        push_bytes(&mut t, ");\n".as_bytes());
        if special {
            push_bytes(&mut t, "debug_assert_eq!(special_header.send_pid(), 0);\ndebug_assert_eq!(special_header.num_copy_handles(), ".as_bytes());
            push_decimal(&mut t, self.out_copy_handles() as u64);
            push_bytes(&mut t, ");\ndebug_assert_eq!(special_header.num_move_handles(), ".as_bytes());
            push_decimal(&mut t, self.out_move_handles() as u64);
            push_bytes(&mut t, ");\n".as_bytes());
            assert(self.handles_out@.map_values(|h: HandleOut| h.transfer_type) =~= self@.handles_out.map_values(
                |h: HandleOutView| h.transfer_type,
            ));
        }
        push_bytes(&mut t, "debug_assert_eq!(cmif.magic, CmifOutHeader::MAGIC);\n".as_bytes());
        t
    }

    /// Each received handle turned into an owned handle or an interface
    /// object, in the module of namespace `namespace`.
    pub fn make_handle_transforms(&self, namespace: &Vec<Vec<u8>>) -> (r: Vec<u8>)
        ensures
            r@ == handle_transforms(namespace@.map_values(|p: Vec<u8>| p@), self@.handles_out),
    {
        let ghost ns = namespace@.map_values(|p: Vec<u8>| p@);
        let ghost hs = self@.handles_out;
        let mut t: Vec<u8> = Vec::new();
        let mut i: usize = 0;
        while i < self.handles_out.len()
            invariant
                i <= self@.handles_out.len(),
                hs == self@.handles_out,
                ns == namespace@.map_values(|p: Vec<u8>| p@),
                t@ == handle_transforms(ns, hs.take(i as int)),
            decreases self@.handles_out.len() - i,
        {
            assert(hs.take(i + 1).drop_last() =~= hs.take(i as int));
            let h = &self.handles_out[i];
            push_bytes(&mut t, "let ".as_bytes());
            push_bytes(&mut t, h.name.as_slice());
            push_bytes(&mut t, " = ".as_bytes());
            match &h.interface {
                Some(iface) => {
                    let r: TypeTokens = import_in(namespace, iface);
                    push_bytes(&mut t, r.text.as_slice());
                    push_bytes(&mut t, " { handle: OwnedHandle::new(".as_bytes());
                    push_bytes(&mut t, h.name.as_slice());
                    push_bytes(&mut t, ") };\n".as_bytes());
                },
                None => {
                    push_bytes(&mut t, "OwnedHandle::new(".as_bytes());
                    push_bytes(&mut t, h.name.as_slice());
                    push_bytes(&mut t, ");\n".as_bytes());
                },
            }
            i = i + 1;
        }
        assert(hs.take(hs.len() as int) =~= hs);
        t
    }
}

/// The request structure's fields and size, as `request_struct` gives them.
pub open spec fn request_struct_spec(ns: Seq<Seq<u8>>, items: Seq<IpcFileItem>, w: CommandWireFormatInfo) -> Option<
    (Seq<(Seq<u8>, TokensView)>, nat),
> {
    match (fields_size_spec(items, raw_in_fields(w.raw_data_in@)), raw_in_type_spec(ns, w@.raw_data_in)) {
        (Some(raw), Some(rt)) => {
            let (cmif, data, total) = request_sizes_spec(w@, raw);
            if !w.is_domain && raw + 1024 <= u64::MAX && total <= 0x100 {
                Some((request_fields_spec(w@, cmif, raw, rt), total as nat))
            } else {
                None
            }
        },
        _ => None,
    }
}

/// The response structure's fields and size, as `response_struct` gives
/// them.
pub open spec fn response_struct_spec(ns: Seq<Seq<u8>>, items: Seq<IpcFileItem>, w: CommandWireFormatInfo) -> Option<
    (Seq<(Seq<u8>, TokensView)>, nat),
> {
    match (fields_size_spec(items, raw_out_fields(w.raw_data_out@)), raw_out_type_spec(ns, w@.raw_data_out)) {
        (Some(raw), Some(rt)) => {
            let (cmif, data, total, alt) = response_sizes_spec(w@, raw);
            if !w.is_domain && raw + 1024 <= u64::MAX && total <= 0x100 {
                Some((response_fields_spec(w@, cmif, raw, rt), total as nat))
            } else {
                None
            }
        },
        _ => None,
    }
}

/// The locals left uninitialised for large outgoing structures.
pub open spec fn uninit_lines(vs: Seq<(Seq<u8>, TokensView)>) -> Seq<u8>
    decreases vs.len(),
{
    if vs.len() == 0 {
        Seq::empty()
    } else {
        uninit_lines(vs.drop_last()) + "let ".spec_bytes() + vs.last().0 + " = MaybeUninit::<".spec_bytes()
            + vs.last().1.text + ">::uninit();\n".spec_bytes()
    }
}

/// The locals, once the response has filled them, taken as initialised.
pub open spec fn assume_init_lines(vs: Seq<(Seq<u8>, TokensView)>) -> Seq<u8>
    decreases vs.len(),
{
    if vs.len() == 0 {
        Seq::empty()
    } else {
        assume_init_lines(vs.drop_last()) + "let ".spec_bytes() + vs.last().0 + " = unsafe { ".spec_bytes()
            + vs.last().0 + ".assume_init() };\n".spec_bytes()
    }
}

/// The parts of a namespace joined by `::`.
pub open spec fn ns_joined(ns: Seq<Seq<u8>>) -> Seq<u8>
    decreases ns.len(),
{
    if ns.len() == 0 {
        Seq::empty()
    } else if ns.len() == 1 {
        ns[0]
    } else {
        ns_joined(ns.drop_last()) + "::".spec_bytes() + ns.last()
    }
}

/// The statements that send the request: the IPC buffer is taken, the
/// request written into it, the session's handle given to the kernel,
/// between the hooks that see the command's full name.
pub open spec fn send_text(fq_name: Seq<u8>, literal: Seq<u8>) -> Seq<u8> {
    "let ipc_buffer_ptr = unsafe { get_ipc_buffer_ptr() };\nunsafe { ::core::ptr::write(ipc_buffer_ptr as *mut _, ".spec_bytes()
        + literal
        + ") };\n{\n    let handle = self.handle.get();\n    crate::pre_ipc_hook(\"".spec_bytes() + fq_name
        + "\", *handle);\n    horizon_svc::send_sync_request(*handle)?;\n    crate::post_ipc_hook(\"".spec_bytes()
        + fq_name + "\", *handle);\n}\n".spec_bytes()
}

/// The body of the function generated for command `cmd_name` of interface
/// `iface_name` in the module of namespace `ns`: the raw data, the request
/// and response structures, the locals for large outputs, sending the
/// request, taking the response apart, the error return and the checks,
/// the handles turned into objects, and the value returned. `None` where a
/// part cannot be generated.
pub open spec fn command_body_spec(
    ns: Seq<Seq<u8>>,
    items: Seq<IpcFileItem>,
    iface_name: Seq<u8>,
    cmd_name: Seq<u8>,
    iv: InterfaceView,
    w: CommandWireFormatInfo,
) -> Option<Seq<u8>> {
    match (
        raw_data_in_spec(ns, items, w.raw_data_in@),
        raw_data_out_struct_spec(ns, items, w.raw_data_out@),
        request_struct_spec(ns, items, w),
        response_struct_spec(ns, items, w),
        fields_size_spec(items, raw_in_fields(w.raw_data_in@)),
    ) {
        (Some(din), Some(dout), Some((rqf, rqs)), Some((rsf, rss)), Some(raw)) => {
            let fq = ns_joined(ns) + "::".spec_bytes() + iface_name + "::".spec_bytes() + cmd_name;
            let data_size = request_sizes_spec(w@, raw).1;
            Some(
                din + dout + packed_struct_text("Request".spec_bytes(), rqf, rqs) + packed_struct_text(
                    "Response".spec_bytes(),
                    rsf,
                    rss,
                ) + uninit_lines(iv.uninit_vars) + send_text(
                    fq,
                    request_literal_text(request_init_spec(w@, data_size as nat)),
                ) + reply_text(ns, iv, w@),
            )
        },
        _ => None,
    }
}

/// Append the namespace's parts joined by `::`.
fn push_ns_joined(t: &mut Vec<u8>, namespace: &Vec<Vec<u8>>)
    ensures
        final(t)@ == old(t)@ + ns_joined(namespace@.map_values(|p: Vec<u8>| p@)),
{
    let ghost o = t@;
    let ghost ns = namespace@.map_values(|p: Vec<u8>| p@);
    let mut i: usize = 0;
    while i < namespace.len()
        invariant
            i <= namespace@.len(),
            o == old(t)@,
            ns == namespace@.map_values(|p: Vec<u8>| p@),
            t@ == o + ns_joined(ns.take(i as int)),
        decreases namespace@.len() - i,
    {
        assert(ns.take(i + 1).drop_last() =~= ns.take(i as int));
        if i > 0 {
            push_bytes(t, "::".as_bytes());
        }
        push_bytes(t, namespace[i].as_slice());
        i = i + 1;
    }
    assert(ns.take(ns.len() as int) =~= ns);
}

/// Append the lines for the uninitialised locals.
fn push_uninit_lines(t: &mut Vec<u8>, vs: &Vec<(Vec<u8>, TypeTokens)>)
    ensures
        final(t)@ == old(t)@ + uninit_lines(named_view(vs@)),
{
    let ghost o = t@;
    let ghost vv = named_view(vs@);
    let mut i: usize = 0;
    while i < vs.len()
        invariant
            i <= vs@.len(),
            o == old(t)@,
            vv == named_view(vs@),
            t@ == o + uninit_lines(vv.take(i as int)),
        decreases vs@.len() - i,
    {
        assert(vv.take(i + 1).drop_last() =~= vv.take(i as int));
        push_bytes(t, "let ".as_bytes());
        push_bytes(t, vs[i].0.as_slice());
        push_bytes(t, " = MaybeUninit::<".as_bytes());
        push_bytes(t, vs[i].1.text.as_slice());
        push_bytes(t, ">::uninit();\n".as_bytes());
        i = i + 1;
    }
    assert(vv.take(vv.len() as int) =~= vv);
}

/// Append the lines that take the locals as initialised.
fn push_init_lines(t: &mut Vec<u8>, vs: &Vec<(Vec<u8>, TypeTokens)>)
    ensures
        final(t)@ == old(t)@ + assume_init_lines(named_view(vs@)),
{
    let ghost o = t@;
    let ghost vv = named_view(vs@);
    let mut i: usize = 0;
    while i < vs.len()
        invariant
            i <= vs@.len(),
            o == old(t)@,
            vv == named_view(vs@),
            t@ == o + assume_init_lines(vv.take(i as int)),
        decreases vs@.len() - i,
    {
        assert(vv.take(i + 1).drop_last() =~= vv.take(i as int));
        push_bytes(t, "let ".as_bytes());
        push_bytes(t, vs[i].0.as_slice());
        push_bytes(t, " = unsafe { ".as_bytes());
        push_bytes(t, vs[i].0.as_slice());
        push_bytes(t, ".assume_init() };\n".as_bytes());
        i = i + 1;
    }
    assert(vv.take(vv.len() as int) =~= vv);
}

/// The names of the results.
fn result_names(i_info: &CommandInterfaceInfo) -> (r: Vec<Vec<u8>>)
    ensures
        r@.map_values(|n: Vec<u8>| n@) == i_info@.results.map_values(|p: (Seq<u8>, TokensView)| p.0),
{
    let ghost target = i_info@.results.map_values(|p: (Seq<u8>, TokensView)| p.0);
    let mut results: Vec<Vec<u8>> = Vec::new();
    let mut i: usize = 0;
    while i < i_info.results.len()
        invariant
            i <= i_info.results@.len(),
            target == i_info@.results.map_values(|p: (Seq<u8>, TokensView)| p.0),
            target.len() == i_info.results@.len(),
            results@.map_values(|n: Vec<u8>| n@) == target.take(i as int),
        decreases i_info.results@.len() - i,
    {
        let mut n: Vec<u8> = Vec::new();
        push_bytes(&mut n, i_info.results[i].0.as_slice());
        let ghost r0 = results@.map_values(|n: Vec<u8>| n@);
        let ghost nv = n@;
        results.push(n);
        assert(target[i as int] == nv);
        assert(results@.map_values(|n: Vec<u8>| n@) =~= r0.push(nv));
        assert(target.take(i + 1) =~= target.take(i as int).push(target[i as int]));
        i = i + 1;
    }
    assert(target.take(target.len() as int) =~= target);
    results
}

/// The statements after the request is sent: taking the response apart,
/// the error return, the checks, the locals taken as initialised, the
/// handles turned into objects and the value returned.
pub open spec fn reply_text(ns: Seq<Seq<u8>>, iv: InterfaceView, w: WireView) -> Seq<u8> {
    "let ".spec_bytes() + response_pattern_spec(w) + " = unsafe { ::core::ptr::read(ipc_buffer_ptr as *const _) };\n".spec_bytes()
        + error_return_spec(w) + check_response_spec(w) + assume_init_lines(iv.uninit_vars) + handle_transforms(
        ns,
        w.handles_out,
    ) + ok_return_spec(iv.results.map_values(|p: (Seq<u8>, TokensView)| p.0)) + "\n".spec_bytes()
}

/// The statements after the request is sent.
fn make_reply(namespace: &Vec<Vec<u8>>, i_info: &CommandInterfaceInfo, w_info: &CommandWireFormatInfo) -> (r: Vec<u8>)
    requires
        w_info.buffers@.len() <= 8,
    ensures
        r@ == reply_text(namespace@.map_values(|p: Vec<u8>| p@), i_info@, w_info@),
{
    let mut t: Vec<u8> = Vec::new();
    push_bytes(&mut t, "let ".as_bytes());
    push_bytes(&mut t, w_info.make_response_pattern().as_slice());
    push_bytes(&mut t, " = unsafe { ::core::ptr::read(ipc_buffer_ptr as *const _) };\n".as_bytes());
    push_bytes(&mut t, w_info.make_error_return().as_slice());
    push_bytes(&mut t, w_info.make_check_response().as_slice());
    push_init_lines(&mut t, &i_info.uninit_vars);
    push_bytes(&mut t, w_info.make_handle_transforms(namespace).as_slice());
    let results = result_names(i_info);
    push_bytes(&mut t, make_ok_return(&results).as_slice());
    push_bytes(&mut t, "\n".as_bytes());
    t
}

/// The statements that send the request.
fn make_send(namespace: &Vec<Vec<u8>>, iface_name: &Vec<u8>, cmd_name: &Vec<u8>, literal: &Vec<u8>) -> (r: Vec<u8>)
    ensures
        r@ == send_text(
            ns_joined(namespace@.map_values(|p: Vec<u8>| p@)) + "::".spec_bytes() + iface_name@ + "::".spec_bytes() + cmd_name@,
            literal@,
        ),
{
    let mut fq: Vec<u8> = Vec::new();
    push_ns_joined(&mut fq, namespace);
    push_bytes(&mut fq, "::".as_bytes());
    push_bytes(&mut fq, iface_name.as_slice());
    push_bytes(&mut fq, "::".as_bytes());
    push_bytes(&mut fq, cmd_name.as_slice());
    let mut t: Vec<u8> = Vec::new();
    push_bytes(&mut t, "let ipc_buffer_ptr = unsafe { get_ipc_buffer_ptr() };\nunsafe { ::core::ptr::write(ipc_buffer_ptr as *mut _, ".as_bytes());
    push_bytes(&mut t, literal.as_slice());
    push_bytes(&mut t, ") };\n{\n    let handle = self.handle.get();\n    crate::pre_ipc_hook(\"".as_bytes());
    push_bytes(&mut t, fq.as_slice());
    push_bytes(&mut t, "\", *handle);\n    horizon_svc::send_sync_request(*handle)?;\n    crate::post_ipc_hook(\"".as_bytes());
    push_bytes(&mut t, fq.as_slice());
    push_bytes(&mut t, "\", *handle);\n}\n".as_bytes());
    t
}

/// The body of the function generated for command `cmd_name` of interface
/// `iface_name`, in the module of namespace `namespace`, from what
/// `collect_command_info` gathered of it.
pub fn make_command_body(
    namespace: &Vec<Vec<u8>>,
    file: &IpcFile,
    iface_name: &Vec<u8>,
    cmd_name: &Vec<u8>,
    i_info: &CommandInterfaceInfo,
    w_info: &CommandWireFormatInfo,
) -> (r: Option<Vec<u8>>)
    requires
        w_info.buffers@.len() <= 8,
        w_info.handles_in@.len() <= 8,
        w_info.handles_out@.len() <= 8,
    ensures
        match command_body_spec(namespace@.map_values(|p: Vec<u8>| p@), file.items_spec(), iface_name@, cmd_name@, i_info@, *w_info) {
            Some(v) => r matches Some(t) && t@ == v,
            None => r is None,
        },
{
    let din = match w_info.make_raw_data_in(namespace, file) {
        Some(d) => d,
        None => {
            return None;
        },
    };
    let dout = match w_info.make_raw_data_out_struct(namespace, file) {
        Some(d) => d,
        None => {
            return None;
        },
    };
    let rq = match w_info.request_struct(namespace, file) {
        Some(s) => s,
        None => {
            return None;
        },
    };
    let rs = match w_info.response_struct(namespace, file) {
        Some(s) => s,
        None => {
            return None;
        },
    };
    let sizes = match w_info.request_sizes(file) {
        Some(s) => s,
        None => {
            return None;
        },
    };
    let literal = request_literal(&w_info.request_init(sizes.data_size));
    let send = make_send(namespace, iface_name, cmd_name, &literal);
    let reply = make_reply(namespace, i_info, w_info);
    let rq_text = packed_struct("Request", &rq);
    let rs_text = packed_struct("Response", &rs);
    let mut t: Vec<u8> = Vec::new();
    push_bytes(&mut t, din.as_slice());
    push_bytes(&mut t, dout.as_slice());
    push_bytes(&mut t, rq_text.as_slice());
    push_bytes(&mut t, rs_text.as_slice());
    push_uninit_lines(&mut t, &i_info.uninit_vars);
    push_bytes(&mut t, send.as_slice());
    push_bytes(&mut t, reply.as_slice());
    Some(t)
}

} // verus!
