//! Paths and service names: text in fixed buffers, padded with zeros.

use vstd::prelude::*;
use vstd::string::StringSliceAdditionalSpecFns;
use crate::ipc::sm::{padded8, name_len, all_ascii, count_name_bytes};
use crate::mounts::{first_zero_from, lemma_first_zero_bound};
use crate::swipc::text::{str_from_utf8, lemma_ascii_valid_utf8};

verus! {

/// The longest path a `Path` holds, in bytes.
pub const PATH_SIZE: usize = 0x300;

/// A path, zero-terminated in a buffer of 0x301 bytes.
/// This struct is marked with sf::LargeData
#[derive(Clone, Copy, Debug)]
pub struct Path {
    pub str: [u8; 769],
}

/// The 0x301 bytes that hold `s`: its bytes, then zeros.
pub open spec fn padded_path(s: Seq<u8>) -> Seq<u8> {
    Seq::new(769, |i: int| if i < s.len() { s[i] } else { 0u8 })
}

/// Whether the buffer holds a zero byte.
pub open spec fn has_zero(s: Seq<u8>) -> bool {
    exists|i: int| 0 <= i < s.len() && s[i] == 0
}

impl Default for Path {
    fn default() -> (r: Self)
        ensures
            r.str@ == Seq::new(769, |i: int| 0u8),
    {
        let r = Self { str: [0u8; 769] };
        assert(r.str@ =~= Seq::new(769, |i: int| 0u8));
        r
    }
}

impl Path {
    /// The path `s`; it must fit.
    pub fn new(s: &[u8]) -> (r: Self)
        requires
            s@.len() <= PATH_SIZE,
        ensures
            r.str@ == padded_path(s@),
    {
        match Self::try_new(s) {
            Some(p) => p,
            None => {
                proof {
                    assert(false);
                }
                Self::default()
            },
        }
    }

    /// The path `s`, or `None` when it has more than 0x300 bytes.
    pub fn try_new(s: &[u8]) -> (r: Option<Self>)
        ensures
            r is Some <==> s@.len() <= PATH_SIZE,
            r matches Some(p) ==> p.str@ == padded_path(s@),
    {
        let mut r = Self::default();
        if s.len() > PATH_SIZE {
            return None;
        }
        let mut i: usize = 0;
        while i < s.len()
            invariant
                i <= s@.len() <= PATH_SIZE,
                r.str@.len() == 769,
                forall|j: int| 0 <= j < i ==> r.str@[j] == s@[j],
                forall|j: int| i <= j < 769 ==> r.str@[j] == 0,
            decreases s@.len() - i,
        {
            r.str[i] = s[i];
            i = i + 1;
        }
        assert(r.str@ =~= padded_path(s@));
        Some(r)
    }

    /// The bytes before the first zero.
    pub fn as_ref(&self) -> (r: &[u8])
        requires
            has_zero(self.str@),
        ensures
            r@ == self.str@.take(first_zero_from(self.str@, 0)),
    {
        proof {
            lemma_first_zero_bound(self.str@, 0);
        }
        let mut len: usize = 0;
        while len < 769 && self.str[len] != 0
            invariant
                len <= 769,
                self.str@.len() == 769,
                forall|j: int| 0 <= j < len ==> self.str@[j] != 0,
                has_zero(self.str@),
            decreases 769 - len,
        {
            len = len + 1;
        }
        proof {
            lemma_first_zero_bound(self.str@, 0);
            let f = first_zero_from(self.str@, 0);
            if len == 769 {
                let k = choose|i: int| 0 <= i < self.str@.len() && self.str@[i] == 0;
                assert(self.str@[k] != 0);
            }
            if f < len {
                assert(self.str@[f] == 0);
            } else if f > len {
                assert(self.str@[len as int] != 0);
            }
        }
        vstd::slice::slice_subrange(self.str.as_slice(), 0, len)
    }

    /// The path as text, when it is UTF-8.
    pub fn as_str(&self) -> (r: Result<&str, core::str::Utf8Error>)
        requires
            has_zero(self.str@),
        ensures
            r is Ok <==> vstd::utf8::valid_utf8(self.str@.take(first_zero_from(self.str@, 0))),
            r matches Ok(s) ==> s.spec_bytes() == self.str@.take(first_zero_from(self.str@, 0)),
    {
        str_from_utf8(self.as_ref())
    }
}

/// A path made from text without a zero byte gives back that text: its bytes
/// come before the first zero of the buffer.
pub proof fn lemma_path_roundtrip(s: Seq<u8>)
    requires
        s.len() <= PATH_SIZE,
        forall|i: int| 0 <= i < s.len() ==> s[i] != 0,
    ensures
        has_zero(padded_path(s)),
        padded_path(s).take(first_zero_from(padded_path(s), 0)) == s,
{
    let b = padded_path(s);
    assert(b[s.len() as int] == 0);
    lemma_path_zero_down(b, s, 0);
    assert(b.take(s.len() as int) =~= s);
}

proof fn lemma_path_zero_down(b: Seq<u8>, s: Seq<u8>, i: int)
    requires
        b == padded_path(s),
        s.len() <= PATH_SIZE,
        forall|k: int| 0 <= k < s.len() ==> s[k] != 0,
        0 <= i <= s.len(),
    ensures
        first_zero_from(b, i) == s.len(),
    decreases s.len() - i,
{
    if i < s.len() {
        lemma_path_zero_down(b, s, i + 1);
    }
}

/// The name of a service, as the service manager's interface carries it.
#[derive(Clone, Copy, Debug, Default)]
pub struct ServiceName {
    pub name: [u8; 8],
}

impl ServiceName {
    /// The name of `name`: `None` when it has 8 bytes or more, or a byte of
    /// 0x80 or above.
    pub fn try_new(name: &str) -> (r: Option<Self>)
        ensures
            r is Some <==> (name.spec_bytes().len() < 8 && all_ascii(name.spec_bytes())),
            r matches Some(n) ==> n.name@ == padded8(name.spec_bytes()),
    {
        let bytes = name.as_bytes();
        if bytes.len() >= 8 {
            return None;
        }
        let mut name_buffer: [u8; 8] = [0u8; 8];
        let mut i: usize = 0;
        while i < bytes.len()
            invariant
                bytes@ == name.spec_bytes(),
                bytes@.len() < 8,
                i <= bytes@.len(),
                name_buffer@.len() == 8,
                forall|j: int| 0 <= j < i ==> name_buffer@[j] == bytes@[j] && bytes@[j] < 0x80,
                forall|j: int| i <= j < 8 ==> name_buffer@[j] == 0,
            decreases bytes@.len() - i,
        {
            if bytes[i] >= 0x80 {
                return None;
            }
            name_buffer[i] = bytes[i];
            i = i + 1;
        }
        let r = Self { name: name_buffer };
        assert(r.name@ =~= padded8(name.spec_bytes()));
        Some(r)
    }

    /// The length of the name: the index of its first zero byte, or 8 when
    /// it has none.
    pub fn len(&self) -> (r: usize)
        ensures
            r == name_len(self.name@),
            r <= 8,
    {
        count_name_bytes(&self.name)
    }

    /// The name as text; its bytes must be ASCII.
    pub fn as_str(&self) -> (r: &str)
        requires
            all_ascii(self.name@),
        ensures
            r.spec_bytes() == self.name@.take(name_len(self.name@) as int),
    {
        let len = self.len();
        let bytes = vstd::slice::slice_subrange(self.name.as_slice(), 0, len);
        proof {
            lemma_ascii_valid_utf8(bytes@);
        }
        assert(bytes@ =~= self.name@.take(len as int));
        match str_from_utf8(bytes) {
            Ok(s) => s,
            Err(_) => {
                proof {
                    assert(false);
                }
                ""
            },
        }
    }
}

} // verus!
