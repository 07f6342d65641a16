use horizon::swipc::diagnostics::Diagnostic;
use horizon::swipc::layout::FieldsLayoutItem;
use horizon::swipc::model::{
    ArgValue, BufferTransferMode, HandleTransferType, IntType, IpcFileItem, NamespacedIdent, NominalType,
};
use horizon::swipc::parser::{parse_ipc_file, parse_items_from_source};
use horizon::swipc::typecheck::IpcFile;
use horizon::swipc::codegen::{gen_bitflags, gen_enum, gen_struct, gen_type_alias, GeneratedItem};

/// The text of a module that holds one generated item: its `use` items, then the item.
fn module_text(g: &GeneratedItem) -> String {
    let mut out = String::new();
    for (path, name) in g.imports.iter() {
        out.push_str("use ");
        out.push_str(std::str::from_utf8(path).unwrap());
        out.push_str("::");
        out.push_str(std::str::from_utf8(name).unwrap());
        out.push_str(";
");
    }
    out.push_str(std::str::from_utf8(&g.text).unwrap());
    out
}

fn render(diags: &[Diagnostic]) -> String {
    let mut out = String::new();
    for d in diags {
        out.push_str("error: ");
        out.push_str(&String::from_utf8_lossy(&d.message));
        out.push('\n');
        for l in d.labels.iter() {
            out.push_str(&String::from_utf8_lossy(&l.message));
            out.push('\n');
        }
    }
    out
}

fn unwrap_parse(source: &str) -> IpcFile {
    match parse_ipc_file(0, source) {
        Ok(f) => f,
        Err(e) => panic!("{}", render(&e)),
    }
}

fn unwrap_err_parse(source: &str, str_match: &str) {
    match parse_ipc_file(0, source) {
        Ok(_) => panic!("Parse error should have occurred"),
        Err(e) => {
            let err = render(&e);
            println!("{}", err);
            assert!(err.contains(str_match), "Could find the expected pattern in the error");
        }
    }
}

fn ident_text(id: &NamespacedIdent) -> String {
    let mut v = Vec::new();
    id.write_text(&mut v);
    String::from_utf8(v).unwrap()
}

fn only_item(source: &str) -> IpcFileItem {
    match parse_items_from_source(0, source) {
        Ok(mut items) => {
            assert_eq!(items.len(), 1);
            items.remove(0)
        }
        Err(e) => panic!("{}", render(&e)),
    }
}

#[test]
fn simple_type_alias() {
    match only_item("type hello::world = u8;") {
        IpcFileItem::TypeAlias(t) => {
            assert_eq!(ident_text(&t.name), "hello::world");
            assert!(matches!(t.referenced_type, NominalType::Int(IntType::U8)));
        }
        _ => panic!("not a type alias"),
    }
}

#[test]
fn name_type_alias() {
    match only_item(r"type some_struct = some_other_struct;") {
        IpcFileItem::TypeAlias(t) => {
            assert_eq!(ident_text(&t.name), "some_struct");
            match &t.referenced_type {
                NominalType::TypeName { name, .. } => assert_eq!(ident_text(name), "some_other_struct"),
                _ => panic!("not a type name"),
            }
        }
        _ => panic!("not a type alias"),
    }
}

fn check_some_struct(item: IpcFileItem, large_data: bool, mode: Option<BufferTransferMode>) {
    match item {
        IpcFileItem::StructDef(s) => {
            assert_eq!(ident_text(&s.name), "some_struct");
            assert_eq!(s.is_large_data, large_data);
            assert_eq!(s.preferred_transfer_mode, mode);
            assert_eq!(s.fields.len(), 2);
            assert_eq!(s.fields[0].name, b"bla".to_vec());
            assert!(matches!(s.fields[0].ty, NominalType::Int(IntType::U8)));
            assert_eq!(s.fields[1].name, b"buffer".to_vec());
            assert!(matches!(s.fields[1].ty, NominalType::Bytes { size: 0x100, alignment: 0x1 }));
        }
        _ => panic!("not a struct"),
    }
}

#[test]
fn struct_def() {
    let item = only_item(
        r"
                struct some_struct {
                    u8 bla;
                    sf::Bytes<0x100> buffer;
                };",
    );
    check_some_struct(item, false, None);
}

#[test]
fn struct_def_marked() {
    let item = only_item(
        r"
                struct some_struct : sf::LargeData, sf::PrefersPointerTransferMode {
                    u8 bla;
                    sf::Bytes<0x100> buffer;
                };",
    );
    check_some_struct(item, true, Some(BufferTransferMode::Pointer));
}

#[test]
fn idirectory_interface() {
    let s = r#"
interface fssrv::sf::IDirectory {
	# Takes a type-0x6 output buffer. Returns an output u64(?) for the total
	# number of read entries, this is 0 when no more entries are available.
	# 
	# The output buffer contains the read array of
	# [\#DirectoryEntry](http://switchbrew.org/index.php?title=Filesystem%20services#DirectoryEntry "wikilink").
	# This doesn't include entries for "." and "..".
	# 
	[0] Read(sf::Out<s64> out, sf::OutBuffer out_entries);
	# Returns an u64 for the total number of readable entries.
	# 
	[1] GetEntryCount(sf::Out<s64> out);
}
        "#;
    match only_item(s) {
        IpcFileItem::InterfaceDef(i) => {
            println!("{:#?}", i);
            assert_eq!(ident_text(&i.name), "fssrv::sf::IDirectory");
            assert_eq!(i.commands.len(), 2);
            assert_eq!(i.commands[0].id, 0);
            assert_eq!(i.commands[0].name, b"Read".to_vec());
            assert_eq!(i.commands[0].arguments.len(), 2);
            assert!(matches!(i.commands[0].arguments[0].1, ArgValue::Out(NominalType::Int(IntType::I64))));
            assert!(matches!(i.commands[0].arguments[1].1, ArgValue::OutBuffer(..)));
            assert_eq!(i.commands[1].name, b"GetEntryCount".to_vec());
        }
        _ => panic!("not an interface"),
    }
}

#[test]
fn iuserinterface_interface() {
    let s = r#"
interface sm::detail::IUserInterface is sm: {
	# Needs to be called before any other command may be used. On version 3.0.0
	# and lower, if this function is not called, `GetService`, `RegisterService`
	# and `UnregisterService` may be called without restriction, thanks to
	# `sm:h`.
	#
	# # Arguments
	# - `reserved`:  Should be set to 0.
	[0] Initialize(sf::ClientProcessId);
	# Returns a handle to the given service. IPC messages may be sent to this
	# handle through `svcSendSyncRequest`.
	[1] GetService(ServiceName name, OutMoveHandle session_handle);
	# Registers a service with the given name. The user can use
	# `svcAcceptSession` on the returned handle to get a new Session handle, and
	# use `svcReplyAndReceive` on those handles to reply to IPC requests.
	[2] RegisterService(ServiceName name, u8, u32 maxHandles, OutMoveHandle port_handle);
	# Unregisters the given service. Future `GetService` call will not return
	# this service anymore, but existing handles will stay alive.
	[3] UnregisterService(ServiceName name);
}
        "#;
    match only_item(s) {
        IpcFileItem::InterfaceDef(i) => {
            println!("{:#?}", i);
            assert_eq!(ident_text(&i.name), "sm::detail::IUserInterface");
            assert_eq!(i.sm_names, vec![b"sm:".to_vec()]);
            assert_eq!(i.commands.len(), 4);
            assert!(matches!(i.commands[0].arguments[0].1, ArgValue::ClientProcessId));
            assert!(matches!(i.commands[1].arguments[1].1, ArgValue::OutHandle(HandleTransferType::Move)));
            assert_eq!(i.commands[2].arguments.len(), 4);
            assert!(i.commands[2].arguments[1].0.is_none());
            assert_eq!(i.commands[2].arguments[2].0, Some(b"maxHandles".to_vec()));
        }
        _ => panic!("not an interface"),
    }
}

#[test]
fn multiple_def_file() {
    let s = r#"
type a = u8;
type b = u8;
type a = u8;
struct c {};
struct a {};
struct b {};
type c = a;
        "#;
    unwrap_err_parse(s, "Multiple definitions of type `a`");
}

#[test]
fn undef_alias_file() {
    let s = r#"
type t = undefined_type;
        "#;
    unwrap_err_parse(s, "Could not resolve type named `undefined_type`");
}

#[test]
fn undef_struct_file() {
    let s = r#"
struct s {
    undefined_type value;
};
        "#;
    unwrap_err_parse(s, "Could not resolve type named `undefined_type`");
}

#[test]
fn unsized_struct_file() {
    let s = r#"
struct test {
    sf::Unknown<1> sized_value;
    sf::Unknown  unsized_value;
};
        "#;
    unwrap_err_parse(s, "Use of unsized type in field `unsized_value`");
}

#[test]
fn enum_overflow_file() {
    let s = r#"
enum test : u8 {
    ok1 = 1,
    large = 256,
    ok2 = 2,
};
        "#;
    unwrap_err_parse(s, "Value 256 of enum arm `large` does not fit into type U8");
}

#[test]
fn enum_duplicate_val_file() {
    let s = r#"
enum test : u8 {
    one_1 = 1,
    one_2 = 1,
    two_1 = 2,
    one_3 = 1,
    two_2 = 2,
};
        "#;
    unwrap_err_parse(s, "Duplicate enum value");
}

#[test]
fn enum_duplicate_name_file() {
    let s = r#"
enum test : u8 {
    name = 1,
    name = 2,
};
        "#;
    unwrap_err_parse(s, "Duplicate enum arm named `name`");
}

#[test]
fn struct_duplicate_file() {
    let s = r#"
struct test {
    u8 one;
    u16 one;
};
        "#;
    unwrap_err_parse(s, "Duplicate struct field `one`");
}

#[test]
fn bitflags_overflow_file() {
    let s = r#"
bitflags test : u8 {
    ok1 = 1,
    large = 256,
    ok2 = 1,
};
        "#;
    unwrap_err_parse(s, "Value 256 of bitflags arm `large` does not fit into type U8");
}

#[test]
fn bitflags_duplicate_file() {
    let s = r#"
bitflags test : u8 {
    one = 1,
    one = 2,
};
        "#;
    unwrap_err_parse(s, "Duplicate bitfield arm named `one`");
}

#[test]
fn interface_duplicate_id_file() {
    let s = r#"
interface ITest {
    [1] Lol();
    [1] Kek();
}
        "#;
    unwrap_err_parse(s, "Duplicate command with id `1`");
}

#[test]
fn interface_duplicate_name_file() {
    let s = r#"
interface ITest {
    [1] Lol();
    [2] Lol();
}
        "#;
    unwrap_err_parse(s, "Duplicate command named `Lol`");
}

#[test]
fn interface_undef_type_file() {
    let s = r#"
interface ITest {
    [1] Lol(undefined_type hello);
}
        "#;
    unwrap_err_parse(s, "Could not resolve type named `undefined_type`");
}

#[test]
fn interface_undef_interface_file() {
    let s = r#"
interface ITest {
    [1] Lol(sf::SharedPointer<ISomeUndefinedInterface> hello);
}
        "#;
    unwrap_err_parse(s, "Could not resolve interface named `ISomeUndefinedInterface`");
}

#[test]
fn simple_struct_layout() {
    let s = r#"
struct HelloStruct {
    /// This is a doc-comment (allowed only in certain places)
    u8 aaaa;
    /// 7 bytes of padding here (u64 should be 8-byte aligned)
    u64 padded;
    u16 bbbb;
    /// 2 bytes of padding here (u32 should be 4-byte aligned)
    u32 cccc;
    u8 ddd;
    /// 7 bytes of padding here (because the whole structure size should be 8-byte aligned to be able to be placed in an array)
};
        "#;

    let file = unwrap_parse(s);
    let item = file.items().iter().next().unwrap();
    let s = match item {
        IpcFileItem::StructDef(s) => s,
        _ => unreachable!(),
    };
    let layout = s.fields_layout(&file).unwrap();
    println!("{:#?}", layout);

    assert_eq!(layout.field_offsets, vec![0, 8, 16, 20, 24]);
    assert_eq!(
        layout.items,
        vec![
            FieldsLayoutItem::Field(1, 0),
            FieldsLayoutItem::Padding(7),
            FieldsLayoutItem::Field(8, 1),
            FieldsLayoutItem::Field(2, 2),
            FieldsLayoutItem::Padding(2),
            FieldsLayoutItem::Field(4, 3),
            FieldsLayoutItem::Field(1, 4),
            FieldsLayoutItem::Padding(7),
        ]
    );
    assert_eq!(layout.alignment, 8);
    assert_eq!(layout.size, 32);
}

#[test]
fn multifile_style_definitions_check() {
    let s = r#"
            struct ns_1::Struct1 {
                ns_2::Enum1 test;
            };
            enum ns_2::Enum1 : u32 {
                Arm0 = 0,
                Arm1 = 1,
                Arm2 = 2,
            };
            type ns_3::HelloAlias = ns_1::Struct1;
            type ns_3::nested::HelloAlias2 = ns_3::HelloAlias;
        "#;
    let file = unwrap_parse(s);
    assert_eq!(file.items().len(), 4);
    assert_eq!(file.context().resolved_type_names.len(), 4);
}

#[test]
fn simple_enum() {
    let s = r#"
            enum HelloEnum : u16 {
                HelloArm = 1,
                HelloRam = 65535,
                Lol = 2,
            };
        "#;
    let file = unwrap_parse(s);
    let e = match &file.items()[0] {
        IpcFileItem::EnumDef(e) => e,
        _ => unreachable!(),
    };
    let res = module_text(&gen_enum(e));
    println!("{}", res);
    assert_eq!(
        res,
        "#[repr(u16)]\npub enum HelloEnum {\n    HelloArm = 1,\n    HelloRam = 65535,\n    Lol = 2,\n}\n"
    )
}

#[test]
fn simple_struct() {
    let s = r#"
            struct HelloStruct : sf::LargeData {
                /// This is a doc-comment (allowed only in certain places)
                u8 aaaa;
                /// 7 bytes of padding here (u64 should be 8-byte aligned)
                u64 padded;
                u16 bbbb;
                /// 2 bytes of padding here (u32 should be 4-byte aligned)
                u32 cccc;
                u8 ddd;
                /// 7 bytes of padding here (because the whole structure size should be 8-byte aligned to be able to be placed in an array)
            };
        "#;
    let file = unwrap_parse(s);
    let st = match &file.items()[0] {
        IpcFileItem::StructDef(s) => s,
        _ => unreachable!(),
    };
    let res = module_text(&gen_struct(&file, st).unwrap());
    println!("{}", res);
    assert_eq!(
        res,
        "/// This struct is marked with sf::LargeData\n#[repr(C)]\npub struct HelloStruct {\n    aaaa: u8,\n    padded: u64,\n    bbbb: u16,\n    cccc: u32,\n    ddd: u8,\n}\n// Static size check for HelloStruct (expect 32 bytes)\nconst _: fn() = || {\n    let _ = ::core::mem::transmute::<HelloStruct, [u8; 32]>;\n};\n\n"
    )
}

#[test]
fn simple_bitflags() {
    let s = r#"
            bitflags HelloEnum : u8 {
                Arm1 = 0x1,
                Arm2 = 0x2,
                Arm12 = 0x3,
            };
        "#;
    let file = unwrap_parse(s);
    let b = match &file.items()[0] {
        IpcFileItem::BitflagsDef(b) => b,
        _ => unreachable!(),
    };
    let res = module_text(&gen_bitflags(b));
    println!("{}", res);
    assert_eq!(
        res,
        "use bitflags::bitflags;\nbitflags! {\n    pub struct HelloEnum : u8 { const Arm1 = 0x1; const Arm2 = 0x2; const Arm12 = 0x3; }\n}\n"
    )
}

#[test]
fn simple_alias() {
    let s = r#"
            type HelloAlias = sf::Bytes<0x1000>;
        "#;
    let file = unwrap_parse(s);
    let a = match &file.items()[0] {
        IpcFileItem::TypeAlias(a) => a,
        _ => unreachable!(),
    };
    let res = module_text(&gen_type_alias(a).unwrap());
    println!("{}", res);
    assert_eq!(res, "type HelloAlias = [u8; 4096];\n")
}

#[test]
fn generated_alias_imports_across_modules() {
    let s = "struct ns_1::Struct1 { u32 test; }; type ns_3::nested::HelloAlias2 = ns_1::Struct1;";
    let file = unwrap_parse(s);
    let a = match &file.items()[1] {
        IpcFileItem::TypeAlias(a) => a,
        _ => unreachable!(),
    };
    let g = gen_type_alias(a).unwrap();
    assert_eq!(g.namespace, vec![b"ns_3".to_vec(), b"nested".to_vec()]);
    assert_eq!(module_text(&g), "use super::super::ns_1::Struct1;\ntype HelloAlias2 = Struct1;\n");
}

#[test]
fn generated_bitflags_values_in_hex() {
    let s = "bitflags F : u32 { Zero = 0, Big = 0xdead0000, };";
    let file = unwrap_parse(s);
    let b = match &file.items()[0] {
        IpcFileItem::BitflagsDef(b) => b,
        _ => unreachable!(),
    };
    let res = String::from_utf8(gen_bitflags(b).text).unwrap();
    assert_eq!(res, "bitflags! {\n    pub struct F : u32 { const Zero = 0x0; const Big = 0xdead0000; }\n}\n");
}

#[test]
fn alias_cycle_hits_recursion_limit() {
    let s = "type a = b; type b = a;";
    unwrap_err_parse(s, "Resolve recursion limit exceeded");
}

#[test]
fn interface_defined_twice() {
    let s = "interface I { } interface I { }";
    unwrap_err_parse(s, "Multiple definitions of interface `I`");
}

#[test]
fn several_markers_rejected() {
    let s = "struct s : sf::PrefersPointerTransferMode, sf::PrefersMapAliasTransferMode { u8 a; };";
    unwrap_err_parse(s, "No more that one transfer mode preference marker must be used");
}

#[test]
fn unexpected_token_reported() {
    unwrap_err_parse("struct s { u8 a }", "Unrecognized token");
    unwrap_err_parse("type a = ", "Unrecognized EOF");
    unwrap_err_parse("type a = u8; $", "Invalid token");
}

#[test]
fn valid_file_parses() {
    let s = r#"
        enum E : u16 { Zero = 0, Big = 65535, };
        bitflags F : u8 { A = 0x1, B = 0x2, AB = 0x3, };
        struct S : sf::LargeData { E e; F f; sf::Bytes<0x10, 8> data; };
        interface IThing is thing:, thing2 {
            [0] Get(sf::Out<S> out, sf::InArray<u32> ids, sf::InBuffer buf, sf::CopyHandle h);
            [1] Open(sf::Out<sf::SharedPointer<IThing>> obj);
        }
    "#;
    let file = unwrap_parse(s);
    assert_eq!(file.items().len(), 4);
    match &file.items()[3] {
        IpcFileItem::InterfaceDef(i) => {
            assert_eq!(i.sm_names, vec![b"thing:".to_vec(), b"thing2".to_vec()]);
        }
        _ => panic!(),
    }
}

#[test]
fn type_errors_come_in_name_order() {
    let s = r"
type ns::b = missing_one;
type a = missing_two;
type ns::a = missing_three;
";
    match parse_ipc_file(0, s) {
        Ok(_) => panic!("the file should not check"),
        Err(e) => {
            let messages: Vec<String> = e.iter().map(|d| String::from_utf8(d.message.clone()).unwrap()).collect();
            assert_eq!(
                messages,
                vec![
                    "Could not resolve type named `missing_two`".to_string(),
                    "Could not resolve type named `missing_three`".to_string(),
                    "Could not resolve type named `missing_one`".to_string(),
                ]
            );
        }
    }
}

fn struct_named<'a>(file: &'a IpcFile, index: usize) -> &'a horizon::swipc::model::Struct {
    match &file.items()[index] {
        IpcFileItem::StructDef(s) => s,
        _ => panic!("not a structure"),
    }
}

#[test]
fn nested_struct_layout() {
    let s = r#"
struct Inner {
    u8 a;
    u32 b;
};
struct Outer {
    u8 x;
    Inner inner;
    u16 y;
};
        "#;
    let file = unwrap_parse(s);
    let inner = struct_named(&file, 0).layout(&file).unwrap();
    assert_eq!((inner.size(), inner.alignment()), (8, 4));

    let layout = struct_named(&file, 1).fields_layout(&file).unwrap();
    assert_eq!(layout.field_offsets, vec![0, 4, 12]);
    assert_eq!(
        layout.items,
        vec![
            FieldsLayoutItem::Field(1, 0),
            FieldsLayoutItem::Padding(3),
            FieldsLayoutItem::Field(8, 1),
            FieldsLayoutItem::Field(2, 2),
            FieldsLayoutItem::Padding(2),
        ]
    );
    assert_eq!(layout.alignment, 4);
    assert_eq!(layout.size, 16);
}

#[test]
fn enum_field_takes_its_base_type_layout() {
    let s = r#"
enum Kind : u16 {
    Zero = 0,
    A = 1,
};
struct WithKind {
    u8 a;
    Kind k;
};
        "#;
    let file = unwrap_parse(s);
    let layout = struct_named(&file, 1).fields_layout(&file).unwrap();
    assert_eq!(layout.field_offsets, vec![0, 2]);
    assert_eq!(layout.size, 4);
    assert_eq!(layout.alignment, 2);
}

#[test]
fn empty_struct_layout() {
    let file = unwrap_parse("struct Empty {\n};\n");
    let layout = struct_named(&file, 0).fields_layout(&file).unwrap();
    assert!(layout.items.is_empty());
    assert_eq!(layout.size, 0);
    assert_eq!(layout.alignment, 1);
}

fn sources(texts: &[&str]) -> horizon::swipc::sources::SourceFiles {
    let mut files = horizon::swipc::sources::SourceFiles { files: Vec::new() };
    for (i, t) in texts.iter().enumerate() {
        files.add(format!("file{}.id", i), t.to_string());
    }
    files
}

#[test]
fn parse_files_checks_definitions_across_files() {
    let files = sources(&[
        "struct ns_1::Struct1 {\n    ns_2::Enum1 test;\n};\n",
        "enum ns_2::Enum1 : u32 {\n    Arm0 = 0,\n};\n",
    ]);
    let file = match horizon::swipc::sources::parse_files(&files) {
        Ok(f) => f,
        Err(e) => panic!("{}", render(&e)),
    };
    assert_eq!(file.items().len(), 2);
    assert!(matches!(file.items()[0], IpcFileItem::StructDef(_)));
    assert!(matches!(file.items()[1], IpcFileItem::EnumDef(_)));
    match &file.items()[1] {
        IpcFileItem::EnumDef(e) => assert_eq!(e.location.file_id, 1),
        _ => unreachable!(),
    }
}

#[test]
fn parse_files_reports_a_name_defined_in_two_files() {
    let files = sources(&["struct A {\n    u8 x;\n};\n", "struct A {\n    u8 y;\n};\n"]);
    match horizon::swipc::sources::parse_files(&files) {
        Ok(_) => panic!("a duplicate definition should fail"),
        Err(e) => assert!(!e.is_empty()),
    }
}

#[test]
fn parse_files_fails_on_a_file_that_does_not_parse() {
    let files = sources(&["struct A {\n    u8 x;\n};\n", "struct {"]);
    match horizon::swipc::sources::parse_files(&files) {
        Ok(_) => panic!("a syntax error should fail"),
        Err(e) => assert!(!e.is_empty()),
    }
}

#[test]
fn duplicate_field_points_at_the_first_one() {
    let s = "struct S {\n    u8 a;\n    u16 a;\n};\n";
    let e = match parse_ipc_file(0, s) {
        Ok(_) => panic!("a repeated field should fail"),
        Err(e) => e,
    };
    assert_eq!(e.len(), 1);
    assert_eq!(String::from_utf8_lossy(&e[0].message), "Duplicate struct field `a`");
    assert_eq!(e[0].labels.len(), 2);
    let first = &e[0].labels[1];
    assert_eq!(String::from_utf8_lossy(&first.message), "Previously defined here");
    assert!(first.span.left < e[0].labels[0].span.left);
    assert!(s[first.span.left..first.span.right].starts_with("u8 a"));
}

#[test]
fn unresolved_field_type_gets_its_contexts() {
    let s = "struct S {\n    Missing m;\n};\n";
    let e = match parse_ipc_file(0, s) {
        Ok(_) => panic!("an unresolved type should fail"),
        Err(e) => e,
    };
    assert_eq!(e.len(), 1);
    assert_eq!(String::from_utf8_lossy(&e[0].message), "Could not resolve type named `Missing`");
    let label_messages: Vec<String> =
        e[0].labels.iter().map(|l| String::from_utf8_lossy(&l.message).into_owned()).collect();
    assert_eq!(label_messages, vec!["".to_string(), "In field `m`".to_string(), "In struct `S`".to_string()]);
}

#[test]
fn repeated_definition_points_at_the_first() {
    let s = "struct A {\n    u8 x;\n};\nstruct A {\n    u8 y;\n};\n";
    let e = match parse_ipc_file(0, s) {
        Ok(_) => panic!("a repeated definition should fail"),
        Err(e) => e,
    };
    assert_eq!(String::from_utf8_lossy(&e[0].message), "Multiple definitions of type `A`");
    assert_eq!(e[0].labels.len(), 2);
    assert_eq!(String::from_utf8_lossy(&e[0].labels[1].message), "Previous definition of type `A`");
    assert!(e[0].labels[1].span.left < e[0].labels[0].span.left);
}

#[test]
fn several_markers_are_listed_in_a_note() {
    let s = "struct s : sf::PrefersPointerTransferMode, sf::LargeData, sf::PrefersMapAliasTransferMode { u8 a; };";
    let e = match parse_ipc_file(0, s) {
        Ok(_) => panic!("two preference markers should fail"),
        Err(e) => e,
    };
    assert_eq!(e.len(), 1);
    assert!(e[0].labels.is_empty());
    assert_eq!(e[0].notes.len(), 1);
    assert_eq!(
        String::from_utf8_lossy(&e[0].notes[0]),
        "Found the following preference markers: sf::PrefersPointerTransferMode, sf::PrefersMapAliasTransferMode"
    );
}
