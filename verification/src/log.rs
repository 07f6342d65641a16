//! The lines that trace IPC calls: the name of the call and the message
//! buffer as hexadecimal words.

use vstd::prelude::*;
use vstd::string::{StrSliceExecFns, StringSliceAdditionalSpecFns};
use crate::swipc::text::push_bytes;

verus! {

/// The lower-case hexadecimal digit of `d`.
pub open spec fn hex_digit_lower(d: nat) -> u8 {
    if d < 10 {
        (48 + d) as u8
    } else {
        (87 + d) as u8
    }
}

/// A byte as two lower-case hexadecimal digits.
pub open spec fn byte_hex(b: u8) -> Seq<u8> {
    seq![hex_digit_lower((b / 16) as nat), hex_digit_lower((b % 16) as nat)]
}

/// Each word of four bytes of `s` as eight hexadecimal digits and a space.
pub open spec fn hex_dump_spec(s: Seq<u8>) -> Seq<u8>
    decreases s.len(),
{
    if s.len() < 4 {
        Seq::empty()
    } else {
        let n = s.len() - 4;
        hex_dump_spec(s.take(n)) + byte_hex(s[n]) + byte_hex(s[n + 1]) + byte_hex(s[n + 2]) + byte_hex(s[n + 3])
            + seq![32u8]
    }
}

fn push_byte_hex(out: &mut Vec<u8>, b: u8)
    ensures
        final(out)@ == old(out)@ + byte_hex(b),
{
    let hi = b / 16;
    let lo = b % 16;
    out.push(if hi < 10 { 48 + hi } else { 87 + hi });
    out.push(if lo < 10 { 48 + lo } else { 87 + lo });
}

/// The buffer as hexadecimal words, each followed by a space; the buffer is
/// made of whole words.
pub fn hex_dump(buffer: &[u8]) -> (r: Vec<u8>)
    requires
        buffer@.len() % 4 == 0,
    ensures
        r@ == hex_dump_spec(buffer@),
{
    let mut r: Vec<u8> = Vec::new();
    let mut i: usize = 0;
    while i < buffer.len()
        invariant
            i <= buffer@.len(),
            i % 4 == 0,
            buffer@.len() % 4 == 0,
            r@ == hex_dump_spec(buffer@.take(i as int)),
        decreases buffer@.len() - i,
    {
        push_byte_hex(&mut r, buffer[i]);
        push_byte_hex(&mut r, buffer[i + 1]);
        push_byte_hex(&mut r, buffer[i + 2]);
        push_byte_hex(&mut r, buffer[i + 3]);
        r.push(32u8);
        proof {
            let t = buffer@.take(i + 4);
            assert(t.take(i as int) =~= buffer@.take(i as int));
        }
        i = i + 4;
    }
    assert(buffer@.take(i as int) =~= buffer@);
    r
}

/// Which side of an IPC call a trace line is about.
#[derive(Clone, Copy, PartialEq, Eq, Debug, Structural)]
pub enum IpcLogKind {
    Call,
    Result,
}

/// `n` spaces.
pub open spec fn spaces(n: nat) -> Seq<u8> {
    Seq::new(n, |i: int| 32u8)
}

/// The trace line of an IPC call: the name in brackets, padded with spaces to
/// 50 characters, what the buffer holds, and the buffer.
pub open spec fn ipc_log_line_spec(name: Seq<char>, kind: IpcLogKind, buffer: Seq<u8>) -> Seq<u8> {
    let width = name.len() + 2;
    let pad: nat = if width < 50 { (50 - width) as nat } else { 0 };
    "[".spec_bytes() + vstd::utf8::encode_utf8(name) + "]".spec_bytes() + spaces(pad) + match kind {
        IpcLogKind::Call => " IPC CALL   = ".spec_bytes(),
        IpcLogKind::Result => " IPC RESULT = ".spec_bytes(),
    } + hex_dump_spec(buffer)
}

/// The trace line of an IPC call or of its result.
pub fn ipc_log_line(name: &str, kind: IpcLogKind, buffer: &[u8]) -> (r: Vec<u8>)
    requires
        buffer@.len() % 4 == 0,
    ensures
        r@ == ipc_log_line_spec(name@, kind, buffer@),
{
    let mut r: Vec<u8> = Vec::new();
    push_bytes(&mut r, "[".as_bytes());
    push_bytes(&mut r, name.as_bytes());
    push_bytes(&mut r, "]".as_bytes());
    let ghost head = r@;
    let chars = name.unicode_len();
    let mut width: usize = if chars < 48 { chars + 2 } else { 50 };
    let ghost pad: nat = if name@.len() + 2 < 50 { (50 - (name@.len() + 2)) as nat } else { 0 };
    while width < 50
        invariant
            width <= 50,
            head + spaces((pad - (50 - width)) as nat) == r@,
            pad >= 50 - width,
        decreases 50 - width,
    {
        r.push(32u8);
        width = width + 1;
        assert(head + spaces((pad - (50 - width)) as nat) =~= r@);
    }
    match kind {
        IpcLogKind::Call => push_bytes(&mut r, " IPC CALL   = ".as_bytes()),
        IpcLogKind::Result => push_bytes(&mut r, " IPC RESULT = ".as_bytes()),
    }
    let dump = hex_dump(buffer);
    push_bytes(&mut r, dump.as_slice());
    r
}

} // verus!
