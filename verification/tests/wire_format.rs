use horizon::swipc::codegen::{import_in, nominal_tokens, TypeTokens};
use horizon::swipc::message_struct::{packed_struct, MessageStruct};
use horizon::swipc::command_body::{filename_for_namespace, make_command_body, make_ok_return};
use horizon::swipc::interface_gen::{command_text, gen_interface, gen_ipc_file};
use horizon::swipc::module_files::module_files;
use horizon::swipc::request_init::{make_buffer_desc, make_buffer_size, request_literal, DescriptorType};
use horizon::swipc::model::{
    BufferExtraAttrs, BufferTransferMode, Command, Direction, HandleTransferType, IntType, IpcFileItem,
    NamespacedIdent, NominalType,
};
use horizon::swipc::parser::parse_ipc_file;
use horizon::swipc::typecheck::IpcFile;
use horizon::swipc::wire_format::{
    collect_command_info, command_supported, interface_info_of, wire_format_of, Buffer, BufferSource,
};

const SOURCE: &str = r#"
struct ns::Pair {
    u32 a;
    u32 b;
};
interface ns::IOther {
    [0] Nop();
}
interface ns::ITest {
    [7] Mixed(u8 small, sf::ClientProcessId, u64 big, u32, sf::Out<u16> out_half, sf::Out<u64> out_wide, sf::CopyHandle h, sf::OutMoveHandle oh, sf::InBuffer buf, sf::OutPointerBuffer obuf, sf::InPointerArray<ns::Pair> pairs, sf::Out<sf::SharedPointer<ns::IOther>> other);
    [8] NoMode(sf::InArray<u8> arr);
    [9] Plain();
}
"#;

fn file() -> IpcFile {
    match parse_ipc_file(0, SOURCE) {
        Ok(f) => f,
        Err(_) => panic!("the test file should parse"),
    }
}

fn command<'a>(f: &'a IpcFile, id: u32) -> &'a Command {
    for item in f.items().iter() {
        if let IpcFileItem::InterfaceDef(i) = item {
            for c in i.commands.iter() {
                if c.id == id {
                    return c;
                }
            }
        }
    }
    panic!("no such command")
}

fn ns(parts: &[&str]) -> Vec<Vec<u8>> {
    parts.iter().map(|p| p.as_bytes().to_vec()).collect()
}

fn text(t: &TypeTokens) -> String {
    String::from_utf8(t.text.clone()).unwrap()
}

fn import(t: &TypeTokens) -> Option<(String, String)> {
    t.import
        .as_ref()
        .map(|(p, n)| (String::from_utf8(p.clone()).unwrap(), String::from_utf8(n.clone()).unwrap()))
}

fn names_texts(v: &[(Vec<u8>, TypeTokens)]) -> Vec<(String, String)> {
    v.iter().map(|(n, t)| (String::from_utf8(n.clone()).unwrap(), text(t))).collect()
}

#[test]
fn raw_data_sorted_by_alignment() {
    let f = file();
    let c = command(&f, 7);
    let w = wire_format_of(&f, false, c).unwrap();
    let names: Vec<String> = w.raw_data_in.iter().map(|d| String::from_utf8(d.name.clone()).unwrap()).collect();
    assert_eq!(names, vec!["small", "unnamed_3", "_pid_placeholder", "big"]);
    assert!(w.raw_data_in[2].pid_placeholder);
    assert!(!w.raw_data_in[0].pid_placeholder);
    assert!(matches!(w.raw_data_in[2].ty, NominalType::Int(IntType::U64)));
    let outs: Vec<String> = w.raw_data_out.iter().map(|d| String::from_utf8(d.name.clone()).unwrap()).collect();
    assert_eq!(outs, vec!["out_half", "out_wide"]);
    assert!(w.should_pass_pid);
    assert_eq!(w.command_id, 7);
    assert!(!w.is_domain);
}

#[test]
fn handles_and_buffers_in_argument_order() {
    let f = file();
    let c = command(&f, 7);
    let w = wire_format_of(&f, false, c).unwrap();
    assert_eq!(w.handles_in.len(), 1);
    assert_eq!(w.handles_in[0].name, b"h".to_vec());
    assert_eq!(w.handles_in[0].transfer_type, HandleTransferType::Copy);
    assert_eq!(w.handles_out.len(), 2);
    assert_eq!(w.handles_out[0].name, b"oh".to_vec());
    assert_eq!(w.handles_out[0].transfer_type, HandleTransferType::Move);
    assert!(w.handles_out[0].interface.is_none());
    assert_eq!(w.handles_out[1].name, b"other".to_vec());
    assert_eq!(w.handles_out[1].transfer_type, HandleTransferType::Move);
    assert_eq!(w.handles_out[1].interface.as_ref().unwrap().ident, b"IOther".to_vec());
    assert_eq!(w.buffers.len(), 3);
    assert_eq!(w.buffers[0].name, b"buf".to_vec());
    assert_eq!(w.buffers[0].source, BufferSource::ByteSlice);
    assert_eq!(w.buffers[0].direction, Direction::In);
    assert_eq!(w.buffers[0].transfer_mode, BufferTransferMode::MapAlias);
    assert_eq!(w.buffers[0].extra_attrs, BufferExtraAttrs::NoAttrs);
    assert!(!w.buffers[0].fixed_size);
    assert_eq!(w.buffers[1].name, b"obuf".to_vec());
    assert_eq!(w.buffers[1].direction, Direction::Out);
    assert_eq!(w.buffers[1].transfer_mode, BufferTransferMode::Pointer);
    assert_eq!(w.buffers[2].name, b"pairs".to_vec());
    assert_eq!(w.buffers[2].source, BufferSource::TypedSlice);
    assert_eq!(w.buffers[2].direction, Direction::In);
    assert_eq!(w.buffers[2].transfer_mode, BufferTransferMode::Pointer);
}

#[test]
fn wire_format_queries() {
    let f = file();
    let w = wire_format_of(&f, false, command(&f, 7)).unwrap();
    assert!(w.has_in_special_header());
    assert!(w.has_out_special_header());
    assert_eq!(w.in_pointer_buffers().len(), 1);
    assert_eq!(w.in_pointer_buffers()[0].name, b"pairs".to_vec());
    assert_eq!(w.out_pointer_buffers().len(), 1);
    assert_eq!(w.out_pointer_buffers()[0].name, b"obuf".to_vec());
    assert_eq!(w.in_map_alias_buffers().len(), 1);
    assert_eq!(w.out_map_alias_buffers().len(), 0);
    assert_eq!(w.out_pointer_sizes_count(), 1);
    assert_eq!(w.in_copy_handles(), 1);
    assert_eq!(w.in_move_handles(), 0);
    assert_eq!(w.out_copy_handles(), 0);
    assert_eq!(w.out_move_handles(), 2);

    let p = wire_format_of(&f, false, command(&f, 9)).unwrap();
    assert!(!p.has_in_special_header());
    assert!(!p.has_out_special_header());
    assert!(p.buffers.is_empty() && p.raw_data_in.is_empty() && p.raw_data_out.is_empty());
}

#[test]
fn generated_signature() {
    let f = file();
    let c = command(&f, 7);
    let i = interface_info_of(&ns(&["ns"]), c).unwrap();
    assert_eq!(
        names_texts(&i.args),
        vec![
            ("small".to_string(), "u8".to_string()),
            ("big".to_string(), "u64".to_string()),
            ("unnamed_3".to_string(), "u32".to_string()),
            ("h".to_string(), "RawHandle".to_string()),
            ("buf".to_string(), "&[u8]".to_string()),
            ("obuf".to_string(), "&mut [u8]".to_string()),
            ("pairs".to_string(), "&[Pair]".to_string()),
        ]
    );
    assert_eq!(import(&i.args[3].1), Some(("horizon_ipc".to_string(), "RawHandle".to_string())));
    assert_eq!(import(&i.args[6].1), None);
    assert_eq!(
        names_texts(&i.results),
        vec![
            ("out_half".to_string(), "u16".to_string()),
            ("out_wide".to_string(), "u64".to_string()),
            ("oh".to_string(), "OwnedHandle".to_string()),
            ("other".to_string(), "IOther".to_string()),
        ]
    );
    assert_eq!(
        import(&i.results[2].1),
        Some(("horizon_ipc::handle_storage".to_string(), "OwnedHandle".to_string()))
    );
    assert!(i.uninit_vars.is_empty());

    let j = interface_info_of(&ns(&["other"]), c).unwrap();
    assert_eq!(import(&j.args[6].1), Some(("super::ns".to_string(), "Pair".to_string())));
}

#[test]
fn collect_supported_command() {
    let f = file();
    let c = command(&f, 7);
    let n = ns(&["ns"]);
    assert!(command_supported(&n, &f, false, c));
    let (i, w) = collect_command_info(&n, &f, false, c);
    assert_eq!(i.args.len(), 7);
    assert_eq!(i.results.len(), 4);
    assert_eq!(w.command_id, 7);
    assert_eq!(w.raw_data_in.len(), 4);
}

#[test]
fn unsupported_commands() {
    let f = file();
    let n = ns(&["ns"]);
    assert!(wire_format_of(&f, false, command(&f, 8)).is_none());
    assert!(!command_supported(&n, &f, false, command(&f, 8)));
    assert!(wire_format_of(&f, true, command(&f, 7)).is_none());
    assert!(!command_supported(&n, &f, true, command(&f, 7)));
    assert!(command_supported(&n, &f, true, command(&f, 9)));
}

#[test]
fn relative_import_path() {
    let current = ns(&["a", "b", "c"]);
    let item = NamespacedIdent::parse("a::b::d::B").unwrap();
    let t = import_in(&current, &item);
    assert_eq!(text(&t), "B");
    assert_eq!(import(&t), Some(("super::d".to_string(), "B".to_string())));
}

#[test]
fn relative_import_path_same_module() {
    let current = ns(&["a", "b", "c"]);
    let item = NamespacedIdent::parse("a::b::c::B").unwrap();
    let t = import_in(&current, &item);
    assert_eq!(text(&t), "B");
    assert_eq!(import(&t), None);
}

#[test]
fn nominal_type_text() {
    let n = ns(&[]);
    assert_eq!(text(&nominal_tokens(&n, &NominalType::Int(IntType::I32)).unwrap()), "i32");
    assert_eq!(text(&nominal_tokens(&n, &NominalType::Bool).unwrap()), "bool");
    assert_eq!(
        text(&nominal_tokens(&n, &NominalType::Bytes { size: 4096, alignment: 1 }).unwrap()),
        "[u8; 4096]"
    );
    assert!(nominal_tokens(&n, &NominalType::Bytes { size: 16, alignment: 8 }).is_none());
    assert!(nominal_tokens(&n, &NominalType::Unknown { size: None }).is_none());
}

#[test]
fn message_sizes_of_mixed_command() {
    let f = file();
    let w = wire_format_of(&f, false, command(&f, 7)).unwrap();
    let req = w.request_sizes(&f).unwrap();
    assert_eq!(req.cmif_header_offset, 44);
    assert_eq!(req.data_size, 60);
    assert_eq!(req.message_size, 112);
    let resp = w.response_sizes(&f).unwrap();
    assert_eq!(resp.cmif_header_offset, 28);
    assert_eq!(resp.data_size, 48);
    assert_eq!(resp.message_size, 76);
    assert_eq!(resp.cmif_alternative_result_offset, 24);
}

#[test]
fn message_sizes_of_empty_command() {
    let f = file();
    let w = wire_format_of(&f, false, command(&f, 9)).unwrap();
    let req = w.request_sizes(&f).unwrap();
    assert_eq!((req.cmif_header_offset, req.data_size, req.message_size), (8, 32, 40));
    let resp = w.response_sizes(&f).unwrap();
    assert_eq!((resp.cmif_header_offset, resp.data_size, resp.message_size), (8, 32, 40));
    assert_eq!(resp.cmif_alternative_result_offset, 24);
}

fn field_list(s: &MessageStruct) -> Vec<(String, String)> {
    names_texts(&s.fields)
}

fn pairs(v: &[(&str, &str)]) -> Vec<(String, String)> {
    v.iter().map(|(a, b)| (a.to_string(), b.to_string())).collect()
}

#[test]
fn request_struct_of_mixed_command() {
    let f = file();
    let w = wire_format_of(&f, false, command(&f, 7)).unwrap();
    let s = w.request_struct(&ns(&["ns"]), &f).unwrap();
    assert_eq!(s.size, 112);
    assert_eq!(
        field_list(&s),
        pairs(&[
            ("hipc", "HipcHeader"),
            ("special_header", "HipcSpecialHeader"),
            ("pid_placeholder", "u64"),
            ("handle_h", "RawHandle"),
            ("in_pointer_desc_0", "HipcInPointerBufferDescriptor"),
            ("in_map_alias_desc_0", "HipcMapAliasBufferDescriptor"),
            ("pre_padding", "[u8; 4]"),
            ("cmif", "CmifInHeader"),
            ("raw_data", "In"),
            ("raw_data_word_padding", "[u8; 0]"),
            ("post_padding", "[u8; 12]"),
            ("out_pointer_size_0", "u16"),
            ("out_pointer_size_padding", "u16"),
            ("out_pointer_desc_0", "HipcOutPointerBufferDescriptor"),
        ])
    );
    assert_eq!(import(&s.fields[7].1), Some(("horizon_ipc::raw::cmif".to_string(), "CmifInHeader".to_string())));
    assert_eq!(import(&s.fields[0].1), Some(("horizon_ipc::raw::hipc".to_string(), "HipcHeader".to_string())));
}

#[test]
fn response_struct_of_mixed_command() {
    let f = file();
    let w = wire_format_of(&f, false, command(&f, 7)).unwrap();
    let s = w.response_struct(&ns(&["ns"]), &f).unwrap();
    assert_eq!(s.size, 76);
    assert_eq!(
        field_list(&s),
        pairs(&[
            ("hipc", "HipcHeader"),
            ("special_header", "HipcSpecialHeader"),
            ("handle_oh", "RawHandle"),
            ("handle_other", "RawHandle"),
            ("in_pointer_desc_0", "HipcInPointerBufferDescriptor"),
            ("pre_padding", "[u8; 4]"),
            ("cmif", "CmifOutHeader"),
            ("raw_data", "Out"),
            ("raw_data_word_padding", "[u8; 0]"),
            ("post_padding", "[u8; 12]"),
        ])
    );
}

#[test]
fn request_struct_text_of_empty_command() {
    let f = file();
    let w = wire_format_of(&f, false, command(&f, 9)).unwrap();
    let s = w.request_struct(&ns(&["ns"]), &f).unwrap();
    let text = String::from_utf8(packed_struct("Request", &s)).unwrap();
    assert_eq!(
        text,
        "#[repr(packed)]\nstruct Request {\n    hipc: HipcHeader,\n    pre_padding: [u8; 8],\n    cmif: CmifInHeader,\n    raw_data: (),\n    raw_data_word_padding: [u8; 0],\n    post_padding: [u8; 8],\n}\n// Compiler time request size check\nlet _ = ::core::mem::transmute::<Request, [u8; 40]>;\n"
    );
    let r = w.response_struct(&ns(&["ns"]), &f).unwrap();
    assert_eq!(r.size, 40);
    assert!(wire_format_of(&f, true, command(&f, 9)).unwrap().request_struct(&ns(&["ns"]), &f).is_none());
}

fn str_pairs(v: &[(Vec<u8>, Vec<u8>)]) -> Vec<(String, String)> {
    v.iter()
        .map(|(a, b)| (String::from_utf8(a.clone()).unwrap(), String::from_utf8(b.clone()).unwrap()))
        .collect()
}

#[test]
fn request_init_of_mixed_command() {
    let f = file();
    let w = wire_format_of(&f, false, command(&f, 7)).unwrap();
    let sizes = w.request_sizes(&f).unwrap();
    let inits = w.request_init(sizes.data_size);
    assert_eq!(
        str_pairs(&inits),
        pairs(&[
            ("hipc", "HipcHeader::new(CommandType::Request, 1, 1, 0, 0, 15, 3, 0, true)"),
            ("special_header", "HipcSpecialHeader::new(true, 1, 0)"),
            ("pid_placeholder", "0"),
            ("handle_h", "h"),
            (
                "in_pointer_desc_0",
                "HipcInPointerBufferDescriptor::new(0, pairs.as_ptr() as usize, ::core::mem::size_of_val(pairs))"
            ),
            (
                "in_map_alias_desc_0",
                "HipcMapAliasBufferDescriptor::new(MapAliasBufferMode::Normal, buf.as_ptr() as usize, ::core::mem::size_of_val(buf))"
            ),
            ("pre_padding", "Default::default()"),
            ("cmif", "CmifInHeader { magic: CmifInHeader::MAGIC, version: 1, command_id: 7, token: 0 }"),
            ("raw_data", "data_in"),
            ("raw_data_word_padding", "Default::default()"),
            ("post_padding", "Default::default()"),
            ("out_pointer_size_0", "::core::mem::size_of_val(obuf) as u16"),
            ("out_pointer_size_padding", "0"),
            (
                "out_pointer_desc_0",
                "HipcOutPointerBufferDescriptor::new(obuf.as_ptr() as usize, ::core::mem::size_of_val(obuf))"
            ),
        ])
    );
}

#[test]
fn request_literal_of_empty_command() {
    let f = file();
    let w = wire_format_of(&f, false, command(&f, 9)).unwrap();
    let sizes = w.request_sizes(&f).unwrap();
    let text = String::from_utf8(request_literal(&w.request_init(sizes.data_size))).unwrap();
    assert_eq!(
        text,
        "Request {\n    hipc: HipcHeader::new(CommandType::Request, 0, 0, 0, 0, 8, 0, 0, false),\n    pre_padding: Default::default(),\n    cmif: CmifInHeader { magic: CmifInHeader::MAGIC, version: 1, command_id: 9, token: 0 },\n    raw_data: data_in,\n    raw_data_word_padding: Default::default(),\n    post_padding: Default::default(),\n}"
    );
}

#[test]
fn auto_select_pointer_descriptors_are_empty() {
    let b = Buffer {
        name: b"data".to_vec(),
        source: BufferSource::ByteSlice,
        direction: Direction::Out,
        transfer_mode: BufferTransferMode::AutoSelect,
        fixed_size: false,
        extra_attrs: BufferExtraAttrs::AllowNonSecure,
    };
    assert_eq!(
        String::from_utf8(make_buffer_desc(DescriptorType::OutPointer, 2, &b)).unwrap(),
        "HipcOutPointerBufferDescriptor::new(0, 0)"
    );
    assert_eq!(
        String::from_utf8(make_buffer_desc(DescriptorType::InPointer, 2, &b)).unwrap(),
        "HipcInPointerBufferDescriptor::new(2, 0, 0)"
    );
    assert_eq!(
        String::from_utf8(make_buffer_desc(DescriptorType::MapAlias, 0, &b)).unwrap(),
        "HipcMapAliasBufferDescriptor::new(MapAliasBufferMode::NonSecure, data.as_ptr() as usize, ::core::mem::size_of_val(data))"
    );
    let r = Buffer { source: BufferSource::TypedUninitVariable, transfer_mode: BufferTransferMode::Pointer, ..b };
    assert_eq!(String::from_utf8(make_buffer_size(&r)).unwrap(), "::core::mem::size_of_val(&data) as u16");
}

#[test]
fn response_reading_of_mixed_command() {
    let f = file();
    let w = wire_format_of(&f, false, command(&f, 7)).unwrap();
    assert_eq!(
        String::from_utf8(w.make_response_pattern()).unwrap(),
        "Response {\n    hipc,\n    special_header,\n    handle_oh: oh,\n    handle_other: other,\n    cmif,\n    raw_data: Out { out_half, out_wide, },\n    ..\n}"
    );
    assert_eq!(
        String::from_utf8(w.make_error_return()).unwrap(),
        "if hipc.has_special_header() != 0 {\n    if cmif.result.is_failure() {\n        return Err(cmif.result);\n    }\n} else {\n    return Err(unsafe { ::core::ptr::read(ipc_buffer_ptr.offset(24) as *const ErrorCode) });\n}\n"
    );
    assert_eq!(
        String::from_utf8(w.make_check_response()).unwrap(),
        "debug_assert_eq!(hipc.num_in_pointers(), 1);\ndebug_assert_eq!(hipc.num_in_map_aliases(), 0);\ndebug_assert_eq!(hipc.num_out_map_aliases(), 0);\ndebug_assert_eq!(hipc.num_inout_map_aliases(), 0);\ndebug_assert_eq!(hipc.out_pointer_mode(), 0);\ndebug_assert_eq!(hipc.has_special_header(), 1);\ndebug_assert_eq!(special_header.send_pid(), 0);\ndebug_assert_eq!(special_header.num_copy_handles(), 0);\ndebug_assert_eq!(special_header.num_move_handles(), 2);\ndebug_assert_eq!(cmif.magic, CmifOutHeader::MAGIC);\n"
    );
    assert_eq!(
        String::from_utf8(w.make_handle_transforms(&ns(&["ns"]))).unwrap(),
        "let oh = OwnedHandle::new(oh);\nlet other = IOther { handle: OwnedHandle::new(other) };\n"
    );
    let results = vec![b"out_half".to_vec(), b"out_wide".to_vec(), b"oh".to_vec(), b"other".to_vec()];
    assert_eq!(String::from_utf8(make_ok_return(&results)).unwrap(), "Ok((out_half, out_wide, oh, other))");
    assert_eq!(String::from_utf8(make_ok_return(&vec![b"x".to_vec()])).unwrap(), "Ok(x)");
    assert_eq!(String::from_utf8(make_ok_return(&vec![])).unwrap(), "Ok(())");
}

#[test]
fn raw_data_structs_of_mixed_command() {
    let f = file();
    let w = wire_format_of(&f, false, command(&f, 7)).unwrap();
    let n = ns(&["ns"]);
    assert_eq!(
        String::from_utf8(w.make_raw_data_in(&n, &f).unwrap()).unwrap(),
        "#[repr(C, packed)]\nstruct In {\n    pub small: u8,\n    pub _padding_0: [u8; 3],\n    pub unnamed_3: u32,\n    pub _pid_placeholder: u64,\n    pub big: u64,\n}\nlet _ = ::core::mem::transmute::<In, [u8; 24]>;\nlet data_in: In = In {\n    small,\n    unnamed_3,\n    _pid_placeholder: 0,\n    big,\n    _padding_0: Default::default(),\n};\n"
    );
    assert_eq!(
        String::from_utf8(w.make_raw_data_out_struct(&n, &f).unwrap()).unwrap(),
        "#[repr(C, packed)]\nstruct Out {\n    pub out_half: u16,\n    pub _padding_0: [u8; 6],\n    pub out_wide: u64,\n}\nlet _ = ::core::mem::transmute::<Out, [u8; 16]>;\n"
    );
    let p = wire_format_of(&f, false, command(&f, 9)).unwrap();
    assert_eq!(String::from_utf8(p.make_raw_data_in(&n, &f).unwrap()).unwrap(), "let data_in = ();\n");
    assert_eq!(p.make_raw_data_out_struct(&n, &f).unwrap(), Vec::<u8>::new());
}

#[test]
fn command_body_of_empty_command() {
    let f = file();
    let c = command(&f, 9);
    let n = ns(&["ns"]);
    let (i, w) = collect_command_info(&n, &f, false, c);
    let body = String::from_utf8(make_command_body(&n, &f, &b"ITest".to_vec(), &b"Plain".to_vec(), &i, &w).unwrap()).unwrap();
    let request = String::from_utf8(packed_struct("Request", &w.request_struct(&n, &f).unwrap())).unwrap();
    let response = String::from_utf8(packed_struct("Response", &w.response_struct(&n, &f).unwrap())).unwrap();
    let literal = String::from_utf8(request_literal(&w.request_init(32))).unwrap();
    let expected = format!(
        "let data_in = ();\n{}{}let ipc_buffer_ptr = unsafe {{ get_ipc_buffer_ptr() }};\nunsafe {{ ::core::ptr::write(ipc_buffer_ptr as *mut _, {}) }};\n{{\n    let handle = self.handle.get();\n    crate::pre_ipc_hook(\"ns::ITest::Plain\", *handle);\n    horizon_svc::send_sync_request(*handle)?;\n    crate::post_ipc_hook(\"ns::ITest::Plain\", *handle);\n}}\nlet Response {{\n    hipc,\n    cmif,\n    raw_data: (),\n    ..\n}} = unsafe {{ ::core::ptr::read(ipc_buffer_ptr as *const _) }};\nif cmif.result.is_failure() {{\n    return Err(cmif.result);\n}}\ndebug_assert_eq!(hipc.num_in_pointers(), 0);\ndebug_assert_eq!(hipc.num_in_map_aliases(), 0);\ndebug_assert_eq!(hipc.num_out_map_aliases(), 0);\ndebug_assert_eq!(hipc.num_inout_map_aliases(), 0);\ndebug_assert_eq!(hipc.out_pointer_mode(), 0);\ndebug_assert_eq!(hipc.has_special_header(), 0);\ndebug_assert_eq!(cmif.magic, CmifOutHeader::MAGIC);\nOk(())\n",
        request, response, literal
    );
    assert_eq!(body, expected);
    assert!(response.starts_with("#[repr(packed)]\nstruct Response {\n    hipc: HipcHeader,\n    pre_padding: [u8; 8],\n    cmif: CmifOutHeader,"));
}

#[test]
fn module_file_names() {
    assert_eq!(String::from_utf8(filename_for_namespace(&ns(&["a", "b"]), true)).unwrap(), "a/b/mod.rs");
    assert_eq!(String::from_utf8(filename_for_namespace(&ns(&["a", "b"]), false)).unwrap(), "a/b.rs");
    assert_eq!(String::from_utf8(filename_for_namespace(&ns(&[]), true)).unwrap(), "mod.rs");
}

const SIMPLE: &str = r#"
struct ns::Pair {
    u32 a;
    u32 b;
};
interface ns::ISimple {
    [0] DoThing();
    [1] GetValue(sf::Out<u32> value);
}
"#;

#[test]
fn generated_interface() {
    let f = parse_ipc_file(0, SIMPLE).ok().unwrap();
    let i = match &f.items()[1] {
        IpcFileItem::InterfaceDef(i) => i,
        _ => unreachable!(),
    };
    let g = gen_interface(&f, i).unwrap();
    assert_eq!(g.namespace, vec![b"ns".to_vec()]);
    assert_eq!(g.imports.len(), 18);
    assert_eq!(g.imports[0], (b"horizon_ipc::handle_storage".to_vec(), b"HandleStorage".to_vec()));
    assert_eq!(g.imports[17], (b"core::mem".to_vec(), b"MaybeUninit".to_vec()));
    let text = String::from_utf8(g.text).unwrap();
    assert!(text.starts_with(
        "pub struct ISimple<S: HandleStorage = OwnedHandle> {\n    pub(crate) handle: S,\n}\nimpl<S: HandleStorage> ISimple<S> {\n    pub fn new(handle: S) -> Self {\n        Self { handle }\n    }\n    pub fn into_inner(self) -> S {\n        self.handle\n    }\npub fn do_thing(&self) -> Result<()> {\n"
    ));
    assert!(text.contains("}\n\npub fn get_value(&self) -> Result<u32> {\n"));
    assert!(text.contains("crate::pre_ipc_hook(\"ns::ISimple::GetValue\", *handle);"));
    assert!(text.ends_with(
        "impl ::core::fmt::Debug for ISimple {\n    fn fmt(&self, f: &mut ::core::fmt::Formatter<'_>) -> ::core::fmt::Result {\n        write!(f, \"ISimple({})\", self.handle)\n    }\n}\n\n"
    ));
    let c = &i.commands[1];
    let n = ns(&["ns"]);
    let method = String::from_utf8(command_text(&n, &f, &b"ISimple".to_vec(), c).unwrap()).unwrap();
    assert!(method.starts_with("pub fn get_value(&self) -> Result<u32> {\nlet data_in = ();\n"));
    assert!(method.ends_with("Ok(value)\n}\n"));
}

#[test]
fn generated_file_items() {
    let f = parse_ipc_file(0, SIMPLE).ok().unwrap();
    let items = gen_ipc_file(&f).unwrap();
    assert_eq!(items.len(), 2);
    assert!(String::from_utf8(items[0].text.clone()).unwrap().starts_with("#[repr(C)]\npub struct Pair {\n    a: u32,\n    b: u32,\n}\n"));
    assert!(String::from_utf8(items[1].text.clone()).unwrap().starts_with("pub struct ISimple<"));
    // a command whose array has no transfer mode is not generated
    assert!(gen_ipc_file(&file()).is_none());
}

#[test]
fn module_layout_of_files() {
    let s = r#"
            struct ns_1::Struct1 {
                ns_2::Enum1 test;
            };
            enum ns_2::Enum1 : u32 {
                Arm1 = 1,
                Arm2 = 2,
            };
            type ns_3::HelloAlias = ns_1::Struct1;
            type ns_3::nested::HelloAlias2 = ns_3::HelloAlias;
        "#;
    let f = parse_ipc_file(0, s).ok().unwrap();
    let items = gen_ipc_file(&f).unwrap();
    let files = module_files(&items);
    let rendered: Vec<(String, String, Vec<String>)> = files
        .iter()
        .map(|m| {
            (
                String::from_utf8(m.filename.clone()).unwrap(),
                String::from_utf8(m.text.clone()).unwrap(),
                m.children.iter().map(|c| String::from_utf8(c.clone()).unwrap()).collect(),
            )
        })
        .collect();
    let expected = vec![
        (
            "mod.rs".to_string(),
            "#![allow(non_upper_case_globals, clippy::all)]\nmod ns_1;\nmod ns_2;\nmod ns_3;\n".to_string(),
            vec!["ns_1".to_string(), "ns_2".to_string(), "ns_3".to_string()],
        ),
        (
            "ns_1.rs".to_string(),
            "use super::ns_2::Enum1;\n#[repr(C)]\npub struct Struct1 {\n    test: Enum1,\n}\n// Static size check for Struct1 (expect 4 bytes)\nconst _: fn() = || {\n    let _ = ::core::mem::transmute::<Struct1, [u8; 4]>;\n};\n\n".to_string(),
            vec![],
        ),
        (
            "ns_2.rs".to_string(),
            "#[repr(u32)]\npub enum Enum1 {\n    Arm1 = 1,\n    Arm2 = 2,\n}\n".to_string(),
            vec![],
        ),
        (
            "ns_3/mod.rs".to_string(),
            "use super::ns_1::Struct1;\nmod nested;\ntype HelloAlias = Struct1;\n".to_string(),
            vec!["nested".to_string()],
        ),
        (
            "ns_3/nested.rs".to_string(),
            "use super::HelloAlias;\ntype HelloAlias2 = HelloAlias;\n".to_string(),
            vec![],
        ),
    ];
    assert_eq!(rendered, expected);
}

#[test]
fn module_children_are_sorted() {
    let s = "type zeta::A = u8; type alpha::B = u8; type mid::C = u8;";
    let f = parse_ipc_file(0, s).ok().unwrap();
    let files = module_files(&gen_ipc_file(&f).unwrap());
    let root = files.iter().find(|m| m.namespace.is_empty()).unwrap();
    let children: Vec<String> = root.children.iter().map(|c| String::from_utf8(c.clone()).unwrap()).collect();
    assert_eq!(children, vec!["alpha", "mid", "zeta"]);
    assert_eq!(files.len(), 4);
}

#[test]
fn module_imports_appear_once() {
    let s = "struct a::X { b::E e; }; struct a::Y { b::E f; }; enum b::E : u8 { One = 1, };";
    let f = parse_ipc_file(0, s).ok().unwrap();
    let files = module_files(&gen_ipc_file(&f).unwrap());
    let a = files.iter().find(|m| m.namespace == vec![b"a".to_vec()]).unwrap();
    let text = String::from_utf8(a.text.clone()).unwrap();
    assert!(text.starts_with("use super::b::E;\n#[repr(C)]\npub struct X {\n"));
    assert_eq!(text.matches("use super::b::E;").count(), 1);
}
