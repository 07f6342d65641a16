//! The name of a service as the service manager knows it: up to eight ASCII
//! bytes, padded with zeros to eight.

use vstd::prelude::*;
use vstd::string::StringSliceAdditionalSpecFns;
use crate::swipc::text::{lemma_ascii_valid_utf8, str_from_utf8};

verus! {

/// A service name.
/// Null terminated if there is space for it, remaining characters set to zero.
/// Must be ASCII (all bytes < 0x80).
#[derive(Clone, Copy, PartialEq, Eq)]
pub struct SmServiceName {
    name: [u8; 8],
}

/// The eight bytes that hold `s`: its bytes, then zeros.
pub open spec fn padded8(s: Seq<u8>) -> Seq<u8> {
    Seq::new(8, |i: int| if i < s.len() { s[i] } else { 0u8 })
}

/// The index of the first zero among the bytes of a name from index `i` on,
/// and 8 when there is none.
pub open spec fn zero_from(b: Seq<u8>, i: int) -> nat
    decreases 8 - i,
{
    if i >= 8 {
        8
    } else if b[i] == 0 {
        i as nat
    } else {
        zero_from(b, i + 1)
    }
}

/// How many bytes of a name count: the index of the first zero among its
/// eight bytes, and 8 when there is none.
pub open spec fn name_len(b: Seq<u8>) -> nat {
    zero_from(b, 0)
}

proof fn lemma_zero_from_bounds(b: Seq<u8>, i: int)
    requires
        0 <= i,
    ensures
        i <= 8 ==> i <= zero_from(b, i) <= 8,
        i > 8 ==> zero_from(b, i) == 8,
        zero_from(b, i) < 8 ==> b[zero_from(b, i) as int] == 0,
        forall|j: int| i <= j < zero_from(b, i) && j < 8 ==> b[j] != 0,
    decreases 8 - i,
{
    if i < 8 && b[i] != 0 {
        lemma_zero_from_bounds(b, i + 1);
    }
}

/// The counted bytes of a padded name are the name itself, when it holds no
/// zero byte.
pub proof fn lemma_padded_name_len(s: Seq<u8>)
    requires
        s.len() <= 8,
        forall|i: int| 0 <= i < s.len() ==> s[i] != 0,
    ensures
        name_len(padded8(s)) == s.len(),
        padded8(s).take(s.len() as int) == s,
{
    let b = padded8(s);
    assert forall|i: int| 0 <= i <= s.len() implies zero_from(b, i) == s.len() by {
        lemma_zero_down(b, s, i);
    }
    assert(b.take(s.len() as int) =~= s);
}

proof fn lemma_zero_down(b: Seq<u8>, s: Seq<u8>, i: int)
    requires
        b == padded8(s),
        s.len() <= 8,
        forall|k: int| 0 <= k < s.len() ==> s[k] != 0,
        0 <= i <= s.len(),
    ensures
        zero_from(b, i) == s.len(),
    decreases s.len() - i,
{
    if i < s.len() {
        lemma_zero_down(b, s, i + 1);
    }
}

/// How many bytes of `b` count, computed.
pub(crate) fn count_name_bytes(b: &[u8; 8]) -> (r: usize)
    ensures
        r == name_len(b@),
        r <= 8,
{
    proof {
        lemma_zero_from_bounds(b@, 0);
    }
    let mut res: usize = 0;
    while res < 8
        invariant
            res <= 8,
            b@.len() == 8,
            zero_from(b@, 0) == zero_from(b@, res as int),
        decreases 8 - res,
    {
        if b[res] == 0 {
            return res;
        }
        res = res + 1;
    }
    8
}

/// Whether every byte is below 0x80.
pub open spec fn all_ascii(s: Seq<u8>) -> bool {
    forall|i: int| 0 <= i < s.len() ==> s[i] < 0x80
}

impl SmServiceName {
    #[verifier::type_invariant]
    spec fn inv(self) -> bool {
        all_ascii(self.name@)
    }

    /// The eight bytes of the name.
    pub closed spec fn bytes(&self) -> Seq<u8> {
        self.name@
    }

    /// The name of `name`: `None` when it has more than 8 bytes, or a byte of
    /// 0x80 or above. It is zero-terminated when there is room.
    pub fn try_new(name: &str) -> (r: Option<Self>)
        ensures
            r is Some <==> (name.spec_bytes().len() <= 8 && all_ascii(name.spec_bytes())),
            r matches Some(n) ==> n.bytes() == padded8(name.spec_bytes()),
    {
        let bytes = name.as_bytes();
        if bytes.len() > 8 {
            return None;
        }
        let mut name_buffer: [u8; 8] = [0u8; 8];
        let mut i: usize = 0;
        while i < bytes.len()
            invariant
                bytes@ == name.spec_bytes(),
                bytes@.len() <= 8,
                i <= bytes@.len(),
                name_buffer@.len() == 8,
                forall|j: int| 0 <= j < i ==> name_buffer@[j] == bytes@[j] && bytes@[j] < 0x80,
                forall|j: int| i <= j < 8 ==> name_buffer@[j] == 0,
            decreases bytes@.len() - i,
        {
            if bytes[i] >= 0x80 {
                return None;
            }
            name_buffer[i] = bytes[i];
            i = i + 1;
        }
        let r = Self { name: name_buffer };
        assert(r.bytes() =~= padded8(name.spec_bytes()));
        Some(r)
    }

    /// How many bytes of the name count: up to the first zero, or all 8.
    pub fn len(&self) -> (r: usize)
        ensures
            r == name_len(self.bytes()),
            r <= 8,
    {
        count_name_bytes(&self.name)
    }

    /// The counted bytes of the name, as text.
    pub fn as_str(&self) -> (r: &str)
        ensures
            r.spec_bytes() == self.bytes().take(name_len(self.bytes()) as int),
    {
        proof {
            use_type_invariant(self);
        }
        let len = self.len();
        let bytes = vstd::slice::slice_subrange(self.name.as_slice(), 0, len);
        proof {
            lemma_ascii_valid_utf8(bytes@);
        }
        assert(bytes@ =~= self.bytes().take(len as int));
        match str_from_utf8(bytes) {
            Ok(s) => s,
            Err(_) => {
                proof {
                    assert(false);
                }
                ""
            },
        }
    }
}

} // verus!
