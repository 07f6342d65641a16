use horizon::ipc_parse::{IpcFile, IpcMethod, LiteralError};

fn try_parse_ipc_method(s: &str) -> IpcMethod {
    match IpcMethod::parse(s) {
        Ok(ipc_method) => {
            println!("{:?}", ipc_method);
            ipc_method
        }
        Err(e) => {
            println!("Could not parse {}", s);
            println!("{:?}", e);
            panic!("it all failed!!");
        }
    }
}

#[test]
fn parse_ipc_method() {
    try_parse_ipc_method(
        r#"{"vt":  0x20, "func": 0x710007C9DC, "lr": 0x71000076C0, "inbytes":     8, "outbytes":     0, "pid": True}"#,
    );
    try_parse_ipc_method(
        r#"{"vt": 0x180, "func": 0x71000A68B4, "lr": 0x71000069E0, "inbytes":     0, "outbytes":     0, "ininterfaces": ['0x7100008730']}"#,
    );
    try_parse_ipc_method(
        r#"{"vt":  0x70, "func": 0x71000AE374, "lr": 0x710000AE48, "inbytes":  0x10, "outbytes":  0x20, "buffers": [5, 5]}"#,
    );
    try_parse_ipc_method(
        r#"{"vt":  0x20, "lr": 0x710000E694, "inbytes":     4, "outbytes":     0, "outinterfaces": ['0x710000E81C']}"#,
    );
}

#[test]
fn method_fields_are_read() {
    let m = try_parse_ipc_method(
        r#"{"vt":  0x70, "func": 0x71000AE374, "lr": 0x710000AE48, "inbytes":  0x10, "outbytes":  0x20, "buffers": [5, 5], "pid": True, "outhandles": [1, 2], "outinterfaces": ['x', None]}"#,
    );
    assert_eq!(m.virtual_table_offset, 0x70);
    assert_eq!(m.function_address, Some(0x71000AE374));
    assert_eq!(m.lr_value, 0x710000AE48);
    assert_eq!(m.in_bytes, 0x10);
    assert_eq!(m.out_bytes, 0x20);
    assert!(m.pid);
    assert_eq!(m.buffers, vec![5, 5]);
    assert_eq!(m.out_handles, vec![1, 2]);
    assert!(m.in_handles.is_empty());
    assert_eq!(m.out_interfaces, vec![Some("x".to_string()), None]);
}

#[test]
fn method_without_required_key_is_rejected() {
    let r = IpcMethod::parse(r#"{"vt": 0x20, "inbytes": 0, "outbytes": 0}"#);
    assert!(matches!(r, Err(LiteralError::Shape)));
}

#[test]
fn method_with_wide_value_is_rejected() {
    let r = IpcMethod::parse(r#"{"vt": 0x100000000, "lr": 1, "inbytes": 0, "outbytes": 0}"#);
    assert!(matches!(r, Err(LiteralError::Shape)));
}

#[test]
fn not_a_literal_is_rejected() {
    let r = IpcMethod::parse("{vt: ");
    assert!(matches!(r, Err(LiteralError::Syntax)));
}

#[test]
fn later_key_wins() {
    let m = try_parse_ipc_method(r#"{"vt": 1, "vt": 2, "lr": 3, "inbytes": 4, "outbytes": 5}"#);
    assert_eq!(m.virtual_table_offset, 2);
}

fn try_parse_ipc_file(s: &str) -> IpcFile {
    match IpcFile::parse(s) {
        Ok(ipc_file) => {
            println!("{:#?}", ipc_file);
            ipc_file
        }
        Err(e) => {
            println!("Could not parse {}", s);
            println!("{:?}", e);
            panic!("it all failed!!");
        }
    }
}

#[test]
fn parse_ipc_file() {
    try_parse_ipc_file(
        r#"
'Bus': {
  '0x710000E508': { # , vtable size 1, possible vtables [0x710007BE10 1, 0x710007DA08 1, 0x7100078410 1, 0x71000783B8 1, 0x710007DB60 1, 0x710007BD48 1]
      0:     {"vt":  0x20, "lr": 0x710000E694, "inbytes":     4, "outbytes":     0, "outinterfaces": ['0x710000E81C']},
  },
  '0x710000E81C': { # , vtable size 3, possible vtables [0x710007D5F8 3, 0x710007B578 3, 0x7100078478 3]
      0:     {"vt":  0x20, "lr": 0x710000E9F8, "inbytes":     4, "outbytes":     0},
      1:     {"vt":  0x28, "lr": 0x710000EB60, "inbytes":     0, "outbytes":     4},
      2:     {"vt":  0x30, "lr": 0x710000ECD8, "inbytes":     4, "outbytes":     0},
  },
  'N2nn2sf22UnmanagedServiceObjectINS0_4hipc6detail12IHipcManagerENS2_6server2v134HipcServerSessionManagerWithDomain15HipcManagerImplEEE': {
      0:     {"vt":  0x20, "func": 0x7100011D7C, "lr": 0x71000128FC, "inbytes":     0, "outbytes":     4},
      1:     {"vt":  0x28, "func": 0x7100011E58, "lr": 0x7100012A84, "inbytes":     4, "outbytes":     0, "outhandles": [2]},
      2:     {"vt":  0x30, "func": 0x7100011E78, "lr": 0x7100012C50, "inbytes":     0, "outbytes":     0, "outhandles": [2]},
      3:     {"vt":  0x38, "func": 0x7100011E94, "lr": 0x7100012DF4, "inbytes":     0, "outbytes":     2},
      4:     {"vt":  0x40, "func": 0x7100011EA8, "lr": 0x7100012F7C, "inbytes":     4, "outbytes":     0, "outhandles": [2]},
  },
  'N2nn2sf22UnmanagedServiceObjectINS_4gpio8IManagerENS2_6server11ManagerImplEEE': {
      0:     {"vt":  0x20, "func": 0x710002756C, "lr": 0x71000278F0, "inbytes":     4, "outbytes":     0, "outinterfaces": ['0x7100028640']},
      1:     {"vt":  0x28, "func": 0x710002759C, "lr": 0x7100027AEC, "inbytes":     4, "outbytes":     0, "outinterfaces": ['0x7100028640']},
      2:     {"vt":  0x30, "func": 0x71000275CC, "lr": 0x7100027CE8, "inbytes":     4, "outbytes":     0, "outinterfaces": ['0x7100028640']},
      6:     {"vt":  0x38, "func": 0x71000275FC, "lr": 0x7100027EDC, "inbytes":     4, "outbytes":     0},
      7:     {"vt":  0x40, "func": 0x7100027618, "lr": 0x710002804C, "inbytes":     8, "outbytes":     0, "outinterfaces": ['0x7100028640']},
      8:     {"vt":  0x48, "func": 0x7100027648, "lr": 0x7100028240, "inbytes":     4, "outbytes":     1},
      9:     {"vt":  0x50, "func": 0x7100027664, "lr": 0x71000283D4, "inbytes":     8, "outbytes":     0},
      10:    {"vt":  0x58, "func": 0x7100027684, "lr": 0x7100028544, "inbytes":     8, "outbytes":     0},
  },
  'N2nn2sf6detail38ObjectImplFactoryWithStatefulAllocatorINS0_13InterfaceInfoINS_4gpio11IPadSessionEE4_tABINS6_5_tO2NINS4_6server14PadSessionImplEE4typeES5_E4typeENS0_24StatefulAllocationPolicyINS0_16ExpHeapAllocatorEEEE6ObjectE': {
      0:     {"vt":  0x20, "func": 0x710002AB28, "lr": 0x7100028928, "inbytes":     4, "outbytes":     0},
      1:     {"vt":  0x28, "func": 0x710002AB74, "lr": 0x7100028A90, "inbytes":     0, "outbytes":     4},
      2:     {"vt":  0x30, "func": 0x710002ABBC, "lr": 0x7100028C08, "inbytes":     4, "outbytes":     0},
      3:     {"vt":  0x38, "func": 0x710002ABF0, "lr": 0x7100028D70, "inbytes":     0, "outbytes":     4},
      4:     {"vt":  0x40, "func": 0x710002AC38, "lr": 0x7100028EE8, "inbytes":     1, "outbytes":     0},
      5:     {"vt":  0x48, "func": 0x710002AC60, "lr": 0x7100029054, "inbytes":     0, "outbytes":     1},
      6:     {"vt":  0x50, "func": 0x710002ACA8, "lr": 0x71000291CC, "inbytes":     0, "outbytes":     4},
      7:     {"vt":  0x58, "func": 0x710002ACF0, "lr": 0x7100029340, "inbytes":     0, "outbytes":     0},
      8:     {"vt":  0x60, "func": 0x710002AD14, "lr": 0x7100029494, "inbytes":     4, "outbytes":     0},
      9:     {"vt":  0x68, "func": 0x710002AD48, "lr": 0x71000295FC, "inbytes":     0, "outbytes":     4},
      10:    {"vt":  0x70, "func": 0x710002AD90, "lr": 0x710002977C, "inbytes":     0, "outbytes":     0, "outhandles": [1]},
      11:    {"vt":  0x78, "func": 0x710002ADF8, "lr": 0x710002991C, "inbytes":     0, "outbytes":     0},
      12:    {"vt":  0x80, "func": 0x710002AE1C, "lr": 0x7100029A70, "inbytes":     1, "outbytes":     0},
      13:    {"vt":  0x88, "func": 0x710002AE44, "lr": 0x7100029BDC, "inbytes":     0, "outbytes":     1},
      14:    {"vt":  0x90, "func": 0x710002AE8C, "lr": 0x7100029D54, "inbytes":     4, "outbytes":     0},
      15:    {"vt":  0x98, "func": 0x710002AEB0, "lr": 0x7100029EBC, "inbytes":     0, "outbytes":     4},
      16:    {"vt":  0xA0, "func": 0x710002AEF8, "lr": 0x710002A034, "inbytes":     4, "outbytes":     0},
      17:    {"vt":  0xA8, "func": 0x710002AF2C, "lr": 0x710002A19C, "inbytes":     0, "outbytes":     4},
      18:    {"vt":  0xB0, "func": 0x710002AF74, "lr": 0x710002A310, "inbytes":     0, "outbytes":     0},
      19:    {"vt":  0xB8, "func": 0x710002AF98, "lr": 0x710002A464, "inbytes":     4, "outbytes":     0},
  },
  '0x710002D8F0': { # , vtable size 3, possible vtables [0x710007D5F8 3, 0x710007B578 3, 0x7100078478 3]
      0:     {"vt":  0x20, "lr": 0x710002DAD4, "inbytes":  0x10, "outbytes":     0, "outinterfaces": ['0x710002E05C']},
      1:     {"vt":  0x28, "lr": 0x710002DCD8, "inbytes":     4, "outbytes":     0, "outinterfaces": ['0x710002E05C']},
      4:     {"vt":  0x30, "lr": 0x710002DED4, "inbytes":     4, "outbytes":     0, "outinterfaces": ['0x710002E05C']},
  },
  '0x710002E05C': { # , vtable size 4, possible vtables [0x710007B950 4, 0x710007DBC8 4]
      10:    {"vt":  0x20, "lr": 0x710002E280, "inbytes":     4, "outbytes":     0, "buffers": [33]},
      11:    {"vt":  0x28, "lr": 0x710002E44C, "inbytes":     4, "outbytes":     0, "buffers": [34]},
      12:    {"vt":  0x30, "lr": 0x710002E61C, "inbytes":     0, "outbytes":     0, "buffers": [34, 9]},
      13:    {"vt":  0x38, "lr": 0x710002E7D8, "inbytes":     8, "outbytes":     0},
  },
  '0x7100031520': { # , vtable size 1, possible vtables [0x710007BE10 1, 0x710007DA08 1, 0x7100078410 1, 0x71000783B8 1, 0x710007DB60 1, 0x710007BD48 1]
      0:     {"vt":  0x20, "lr": 0x71000316AC, "inbytes":     4, "outbytes":     0, "outinterfaces": ['0x7100031834']},
  },
  '0x7100031834': { # , vtable size 21, possible vtables []
      0:     {"vt":  0x20, "lr": 0x7100031B28, "inbytes":     0, "outbytes":     0},
      1:     {"vt":  0x28, "lr": 0x7100031C78, "inbytes":     0, "outbytes":     0},
      2:     {"vt":  0x30, "lr": 0x7100031DCC, "inbytes":     1, "outbytes":     0},
      3:     {"vt":  0x38, "lr": 0x7100031F34, "inbytes":     0, "outbytes":     1},
      4:     {"vt":  0x40, "lr": 0x71000320AC, "inbytes":     0, "outbytes":     1},
      5:     {"vt":  0x48, "lr": 0x7100032224, "inbytes":     8, "outbytes":     0},
      6:     {"vt":  0x50, "lr": 0x710003238C, "inbytes":     0, "outbytes":     8},
      7:     {"vt":  0x58, "lr": 0x7100032504, "inbytes":     8, "outbytes":     0},
      8:     {"vt":  0x60, "lr": 0x710003266C, "inbytes":     0, "outbytes":     8},
      9:     {"vt":  0x68, "lr": 0x71000327E4, "inbytes":     8, "outbytes":     0},
      10:    {"vt":  0x70, "lr": 0x710003294C, "inbytes":     0, "outbytes":     8},
      11:    {"vt":  0x78, "lr": 0x7100032AC4, "inbytes":     8, "outbytes":     0},
      12:    {"vt":  0x80, "lr": 0x7100032C2C, "inbytes":     0, "outbytes":     8},
      13:    {"vt":  0x88, "lr": 0x7100032DA4, "inbytes":     4, "outbytes":     0},
      14:    {"vt":  0x90, "lr": 0x7100032F0C, "inbytes":     0, "outbytes":     4},
      15:    {"vt":  0x98, "lr": 0x7100033084, "inbytes":     0, "outbytes":     4},
      16:    {"vt":  0xA0, "lr": 0x71000331FC, "inbytes":     8, "outbytes":     0},
      17:    {"vt":  0xA8, "lr": 0x7100033364, "inbytes":     0, "outbytes":     8},
      18:    {"vt":  0xB0, "lr": 0x71000334DC, "inbytes":     4, "outbytes":     0},
      19:    {"vt":  0xB8, "lr": 0x7100033644, "inbytes":     0, "outbytes":     4},
      20:    {"vt":  0xC0, "lr": 0x71000337BC, "inbytes":     0, "outbytes":     1},
  },
  '0x7100039788': { # , vtable size 3, possible vtables [0x710007D5F8 3, 0x710007B578 3, 0x7100078478 3]
      0:     {"vt":  0x20, "lr": 0x710003996C, "inbytes":     4, "outbytes":     0, "outinterfaces": ['0x7100039EEC']},
      1:     {"vt":  0x28, "lr": 0x7100039B68, "inbytes":     4, "outbytes":     0, "outinterfaces": ['0x7100039EEC']},
      2:     {"vt":  0x30, "lr": 0x7100039D64, "inbytes":     4, "outbytes":     0, "outinterfaces": ['0x7100039EEC']},
  },
  '0x7100039EEC': { # , vtable size 6, possible vtables [0x710007D6D8 6, 0x71000785F8 6]
      0:     {"vt":  0x20, "lr": 0x710003A104, "inbytes":     8, "outbytes":     0},
      1:     {"vt":  0x28, "lr": 0x710003A26C, "inbytes":     0, "outbytes":     8},
      4:     {"vt":  0x30, "lr": 0x710003A3E4, "inbytes":     1, "outbytes":     0},
      5:     {"vt":  0x38, "lr": 0x710003A550, "inbytes":     0, "outbytes":     1},
      6:     {"vt":  0x40, "lr": 0x710003A6C8, "inbytes":     8, "outbytes":     0},
      7:     {"vt":  0x48, "lr": 0x710003A84C, "inbytes":     0, "outbytes":     8},
  },
  '0x710003C1B0': { # , vtable size 1, possible vtables [0x710007BE10 1, 0x710007DA08 1, 0x7100078410 1, 0x71000783B8 1, 0x710007DB60 1, 0x710007BD48 1]
      0:     {"vt":  0x20, "lr": 0x710003C33C, "inbytes":     4, "outbytes":     0, "outinterfaces": ['0x710003C4C4']},
  },
  '0x710003C4C4': { # , vtable size 4, possible vtables [0x710007B950 4, 0x710007DBC8 4]
      0:     {"vt":  0x20, "lr": 0x710003C7F0, "inbytes":     1, "outbytes":     0, "buffers": [33]},
      1:     {"vt":  0x28, "lr": 0x710003C9AC, "inbytes":     1, "outbytes":     0, "buffers": [34]},
      2:     {"vt":  0x30, "lr": 0x710003CB64, "inbytes":  0x18, "outbytes":     0, "inhandles": [1]},
      3:     {"vt":  0x38, "lr": 0x710003C5DC, "inbytes":     0, "outbytes":     0},
  },
  'N2nn2sf22UnmanagedServiceObjectINS_4uart8IManagerENS2_6server11ManagerImplEEE': {
      0:     {"vt":  0x20, "func": 0x710003FB08, "lr": 0x710003FEB0, "inbytes":     4, "outbytes":     1},
      1:     {"vt":  0x28, "func": 0x710003FB24, "lr": 0x7100040044, "inbytes":     4, "outbytes":     1},
      2:     {"vt":  0x30, "func": 0x710003FB40, "lr": 0x71000401D8, "inbytes":     8, "outbytes":     1},
      3:     {"vt":  0x38, "func": 0x710003FB5C, "lr": 0x710004036C, "inbytes":     8, "outbytes":     1},
      4:     {"vt":  0x40, "func": 0x710003FB78, "lr": 0x7100040500, "inbytes":     8, "outbytes":     1},
      5:     {"vt":  0x48, "func": 0x710003FB94, "lr": 0x7100040694, "inbytes":     8, "outbytes":     1},
      6:     {"vt":  0x50, "func": 0x710003FBB0, "lr": 0x710004082C, "inbytes":     0, "outbytes":     0, "outinterfaces": ['0x7100040FE8']},
      7:     {"vt":  0x58, "func": 0x710003FBE0, "lr": 0x7100040A04, "inbytes":     8, "outbytes":     1},
      8:     {"vt":  0x60, "func": 0x710003FBFC, "lr": 0x7100040B98, "inbytes":     8, "outbytes":     1},
      9:     {"vt":  0x68, "func": 0x710003FC18, "lr": 0x7100040D2C, "inbytes":     8, "outbytes":     1},
      10:    {"vt":  0x70, "func": 0x710003FC34, "lr": 0x7100040EC0, "inbytes":     8, "outbytes":     1},
  },
  'N2nn2sf6detail38ObjectImplFactoryWithStatefulAllocatorINS0_13InterfaceInfoINS_4uart12IPortSessionEE4_tABINS6_5_tO2NINS4_6server15PortSessionImplEE4typeES5_E4typeENS0_24StatefulAllocationPolicyINS0_16ExpHeapAllocatorEEEE6ObjectE': {
      0:     {"vt":  0x20, "func": 0x7100042C78, "lr": 0x7100041238, "inbytes":  0x28, "outbytes":     1, "inhandles": [1, 1]},
      1:     {"vt":  0x28, "func": 0x7100042CF4, "lr": 0x710004149C, "inbytes":  0x28, "outbytes":     1, "inhandles": [1, 1]},
      2:     {"vt":  0x30, "func": 0x7100042D70, "lr": 0x71000416E8, "inbytes":     0, "outbytes":     8},
      3:     {"vt":  0x38, "func": 0x7100042D9C, "lr": 0x7100041874, "inbytes":     0, "outbytes":     8, "buffers": [33]},
      4:     {"vt":  0x40, "func": 0x7100042DD8, "lr": 0x7100041A38, "inbytes":     0, "outbytes":     8},
      5:     {"vt":  0x48, "func": 0x7100042E04, "lr": 0x7100041BC4, "inbytes":     0, "outbytes":     8, "buffers": [34]},
      6:     {"vt":  0x50, "func": 0x7100042E3C, "lr": 0x7100041D94, "inbytes":  0x10, "outbytes":     1, "outhandles": [1]},
      7:     {"vt":  0x58, "func": 0x7100042F00, "lr": 0x7100041F78, "inbytes":     4, "outbytes":     1},
      8:     {"vt":  0x60, "func": 0x7100042F90, "lr": 0x7100042124, "inbytes":  0x28, "outbytes":     0, "inhandles": [1, 1]},
  },
},
        "#,
    );
}

#[test]
fn file_interfaces_and_sorted_methods() {
    let f = try_parse_ipc_file(
        r#"
'Bus': {
  '0x710000E81C': { # a comment
      2:     {"vt":  0x30, "lr": 0x710000ECD8, "inbytes":     4, "outbytes":     0},
      0:     {"vt":  0x20, "lr": 0x710000E9F8, "inbytes":     4, "outbytes":     0},
      1:     {"vt":  0x28, "lr": 0x710000EB60, "inbytes":     0, "outbytes":     4},
      0:     {"vt":  0x40, "lr": 0x710000E9F8, "inbytes":     8, "outbytes":     0},
  },
},
"#,
    );
    assert_eq!(f.name, "Bus");
    assert_eq!(f.interfaces.len(), 1);
    let i = &f.interfaces[0];
    assert_eq!(i.raw_name, "0x710000E81C");
    let ids: Vec<u32> = i.methods.iter().map(|(k, _)| *k).collect();
    assert_eq!(ids, vec![0, 1, 2]);
    assert_eq!(i.methods[0].1.virtual_table_offset, 0x40);
    assert_eq!(i.methods[0].1.in_bytes, 8);
}

#[test]
fn file_with_bad_method_is_rejected() {
    let r = IpcFile::parse("'Bus': { 'x': { 0: {\"vt\": 1} } }");
    assert!(matches!(r, Err(LiteralError::Shape)));
}
