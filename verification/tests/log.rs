use horizon::log::{hex_dump, ipc_log_line, IpcLogKind};

#[test]
fn hex_dump_words() {
    let dump = hex_dump(&[0x01, 0xab, 0x00, 0xff, 0x10, 0x20, 0x30, 0x40]);
    assert_eq!(String::from_utf8(dump).unwrap(), "01ab00ff 10203040 ");
    assert!(hex_dump(&[]).is_empty());
}

#[test]
fn log_line_pads_the_name() {
    let line = ipc_log_line("foo", IpcLogKind::Call, &[1, 2, 3, 4]);
    assert_eq!(
        String::from_utf8(line).unwrap(),
        format!("{:50} IPC CALL   = 01020304 ", "[foo]")
    );
    let line = ipc_log_line("bär", IpcLogKind::Result, &[0xde, 0xad, 0xbe, 0xef]);
    assert_eq!(
        String::from_utf8(line).unwrap(),
        format!("{:50} IPC RESULT = deadbeef ", "[bär]")
    );
}

#[test]
fn log_line_long_name_is_not_cut() {
    let name = "x".repeat(60);
    let line = ipc_log_line(&name, IpcLogKind::Call, &[]);
    assert_eq!(
        String::from_utf8(line).unwrap(),
        format!("[{}] IPC CALL   = ", name)
    );
}
