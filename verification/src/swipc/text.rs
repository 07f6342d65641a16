//! Byte strings: comparison, copying, concatenation and decimal rendering.

use vstd::prelude::*;
use vstd::string::StringSliceAdditionalSpecFns;

verus! {

/// Whether two byte strings are equal.
pub fn bytes_eq(a: &[u8], b: &[u8]) -> (r: bool)
    ensures
        r == (a@ == b@),
{
    if a.len() != b.len() {
        return false;
    }
    let mut i: usize = 0;
    while i < a.len()
        invariant
            a@.len() == b@.len(),
            i <= a@.len(),
            forall|j: int| 0 <= j < i ==> a@[j] == b@[j],
        decreases a@.len() - i,
    {
        if a[i] != b[i] {
            return false;
        }
        i = i + 1;
    }
    assert(a@ =~= b@);
    true
}

/// A copy of a byte string.
pub fn copy_bytes(a: &[u8]) -> (r: Vec<u8>)
    ensures
        r@ == a@,
{
    let mut r: Vec<u8> = Vec::new();
    let mut i: usize = 0;
    while i < a.len()
        invariant
            i <= a@.len(),
            r@ == a@.take(i as int),
        decreases a@.len() - i,
    {
        r.push(a[i]);
        i = i + 1;
        assert(r@ =~= a@.take(i as int));
    }
    assert(a@.take(a@.len() as int) =~= a@);
    r
}

/// Append the bytes of `b` to `a`.
pub fn push_bytes(a: &mut Vec<u8>, b: &[u8])
    ensures
        final(a)@ == old(a)@ + b@,
{
    let mut i: usize = 0;
    let ghost a0 = a@;
    while i < b.len()
        invariant
            i <= b@.len(),
            a@ == a0 + b@.take(i as int),
        decreases b@.len() - i,
    {
        a.push(b[i]);
        i = i + 1;
        assert(a@ =~= a0 + b@.take(i as int));
    }
    assert(b@.take(b@.len() as int) =~= b@);
}

/// The decimal digits of `n`, most significant first, without leading zeros ("0" for 0).
pub open spec fn decimal(n: nat) -> Seq<u8>
    decreases n,
{
    if n < 10 {
        seq![(48 + n) as u8]
    } else {
        decimal(n / 10).push((48 + n % 10) as u8)
    }
}

/// Append the decimal digits of `n` to `a`.
pub fn push_decimal(a: &mut Vec<u8>, n: u64)
    ensures
        final(a)@ == old(a)@ + decimal(n as nat),
    decreases n,
{
    if n < 10 {
        a.push((48 + n) as u8);
        assert(seq![(48 + n) as u8] =~= decimal(n as nat));
    } else {
        push_decimal(a, n / 10);
        a.push((48 + n % 10) as u8);
        assert(old(a)@ + decimal(n as nat) =~= old(a)@ + decimal((n / 10) as nat) + seq![(48 + n % 10) as u8]);
    }
}

/// `decimal(n)` padded with leading zeros to at least `width` digits.
pub open spec fn decimal_padded(n: nat, width: nat) -> Seq<u8> {
    let d = decimal(n);
    if d.len() >= width {
        d
    } else {
        Seq::new((width - d.len()) as nat, |i: int| 48u8) + d
    }
}

/// A byte string that holds only ASCII.
pub open spec fn is_ascii_bytes(s: Seq<u8>) -> bool {
    forall|i: int| 0 <= i < s.len() ==> s[i] < 128
}

/// The characters of an ASCII byte string.
pub open spec fn ascii_chars(s: Seq<u8>) -> Seq<char> {
    Seq::new(s.len(), |i: int| s[i] as char)
}

/// Append `decimal_padded(n, width)` to `a`.
pub fn push_decimal_padded(a: &mut Vec<u8>, n: u64, width: usize)
    ensures
        final(a)@ == old(a)@ + decimal_padded(n as nat, width as nat),
{
    let mut digits: Vec<u8> = Vec::new();
    push_decimal(&mut digits, n);
    assert(digits@ =~= decimal(n as nat));
    let ghost a0 = a@;
    if digits.len() < width {
        let pad = width - digits.len();
        let mut i: usize = 0;
        while i < pad
            invariant
                i <= pad,
                a@ == a0 + Seq::new(i as nat, |k: int| 48u8),
            decreases pad - i,
        {
            a.push(48u8);
            i = i + 1;
            assert(a@ =~= a0 + Seq::new(i as nat, |k: int| 48u8));
        }
    }
    push_bytes(a, digits.as_slice());
    assert(a@ =~= a0 + decimal_padded(n as nat, width as nat));
}

/// ASCII bytes are valid UTF-8, and they encode their own characters.
pub proof fn lemma_ascii_valid_utf8(s: Seq<u8>)
    requires
        is_ascii_bytes(s),
    ensures
        vstd::utf8::valid_utf8(s),
        vstd::utf8::encode_utf8(ascii_chars(s)) == s,
{
    let chars = ascii_chars(s);
    assert forall|i: int| 0 <= i < chars.len() implies '\0' <= #[trigger] chars[i] <= '\u{7f}' by {
        assert(s[i] < 128);
    }
    assert(vstd::utf8::is_ascii_chars(chars));
    vstd::utf8::is_ascii_chars_encode_utf8(chars);
    let e = vstd::utf8::encode_utf8(chars);
    assert forall|i: int| 0 <= i < s.len() implies e[i] == s[i] by {
        assert(chars[i] as u8 == e[i]);
    }
    assert(e =~= s);
    vstd::utf8::encode_utf8_valid_utf8(chars);
}

#[verifier::external_type_specification]
#[verifier::external_body]
pub struct ExUtf8Error(core::str::Utf8Error);

/// Text from bytes, checked to be UTF-8.
///
/// Calls `core::str::from_utf8`; the contract states what its documentation
/// says: it succeeds exactly on valid UTF-8, giving text with those bytes.
#[verifier::external_body]
pub fn str_from_utf8(b: &[u8]) -> (r: Result<&str, core::str::Utf8Error>)
    ensures
        r is Ok <==> vstd::utf8::valid_utf8(b@),
        r matches Ok(s) ==> s.spec_bytes() == b@,
{
    core::str::from_utf8(b)
}

} // verus!
