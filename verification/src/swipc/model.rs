//! The data model of SwIPC files: identifiers, types, values, and the items
//! of a file (type aliases, structs, enums, bitflags and interfaces).

use vstd::prelude::*;
use crate::swipc::diagnostics::{Span, Diagnostic, DiagnosticView, Label, LabelView, Severity};
use vstd::utf8::encode_utf8;
use crate::swipc::text::{bytes_eq, copy_bytes, push_bytes, is_ascii_bytes};
use vstd::string::StringSliceAdditionalSpecFns;

verus! {

/// An ASCII letter or underscore.
pub open spec fn is_ident_start(c: u8) -> bool {
    (65 <= c <= 90) || (97 <= c <= 122) || c == 95
}

/// An ASCII letter, digit or underscore.
pub open spec fn is_ident_continue(c: u8) -> bool {
    is_ident_start(c) || (48 <= c <= 57)
}

/// A nonempty ASCII identifier: a letter or underscore, then letters, digits and underscores.
pub open spec fn is_ident(s: Seq<u8>) -> bool {
    &&& s.len() > 0
    &&& is_ident_start(s[0])
    &&& forall|i: int| 1 <= i < s.len() ==> is_ident_continue(#[trigger] s[i])
}

/// Whether one identifier part matches the pattern `^[a-zA-Z_]\w*$` with Unicode `\w`.
pub uninterp spec fn ident_part_regex(part: Seq<u8>) -> bool;

/// Match one identifier part against `^[a-zA-Z_]\w*$`.
///
/// Calls `regex::bytes::Regex::is_match`. The contract names the result and
/// states it for ASCII input, where `\w` is `[0-9A-Za-z_]`; for other bytes
/// it says nothing more than the name.
#[verifier::external_body]
fn ident_part_matches(part: &[u8]) -> (r: bool)
    ensures
        r == ident_part_regex(part@),
        is_ascii_bytes(part@) ==> (r == is_ident(part@)),
{
    regex::bytes::Regex::new(r"^[a-zA-Z_]\w*$").unwrap().is_match(part)
}

/// An identifier with a (possibly empty) namespace path, like `a::b::C`.
#[derive(Debug)]
pub struct NamespacedIdent {
    pub namespace: Vec<Vec<u8>>,
    pub ident: Vec<u8>,
}

/// A namespaced identifier by value.
pub struct IdentView {
    pub namespace: Seq<Seq<u8>>,
    pub ident: Seq<u8>,
}

impl View for NamespacedIdent {
    type V = IdentView;

    open spec fn view(&self) -> IdentView {
        IdentView { namespace: self.namespace@.map_values(|p: Vec<u8>| p@), ident: self.ident@ }
    }
}

/// The text of a namespaced identifier: its parts joined by `::`.
pub open spec fn ident_text(id: IdentView) -> Seq<u8>
    decreases id.namespace.len(),
{
    if id.namespace.len() == 0 {
        id.ident
    } else {
        id.namespace[0] + seq![58u8, 58u8] + ident_text(
            IdentView { namespace: id.namespace.drop_first(), ident: id.ident },
        )
    }
}

/// Byte strings in lexicographic order, the order of `str`.
pub open spec fn bytes_lt(a: Seq<u8>, b: Seq<u8>) -> bool
    decreases a.len(),
{
    if a.len() == 0 {
        b.len() > 0
    } else if b.len() == 0 {
        false
    } else if a[0] != b[0] {
        a[0] < b[0]
    } else {
        bytes_lt(a.drop_first(), b.drop_first())
    }
}

/// Lists of parts in lexicographic order, each part ordered as bytes.
pub open spec fn parts_lt(a: Seq<Seq<u8>>, b: Seq<Seq<u8>>) -> bool
    decreases a.len(),
{
    if a.len() == 0 {
        b.len() > 0
    } else if b.len() == 0 {
        false
    } else if a[0] != b[0] {
        bytes_lt(a[0], b[0])
    } else {
        parts_lt(a.drop_first(), b.drop_first())
    }
}

/// The order of names: by namespace, then by identifier.
pub open spec fn ident_lt(a: IdentView, b: IdentView) -> bool {
    parts_lt(a.namespace, b.namespace) || (a.namespace == b.namespace && bytes_lt(a.ident, b.ident))
}

/// Whether `a` comes before `b` in lexicographic order.
pub fn bytes_less(a: &[u8], b: &[u8]) -> (r: bool)
    ensures
        r == bytes_lt(a@, b@),
{
    let mut i: usize = 0;
    proof {
        assert(a@.skip(0) =~= a@);
        assert(b@.skip(0) =~= b@);
    }
    while i < a.len() && i < b.len()
        invariant
            i <= a@.len(),
            i <= b@.len(),
            bytes_lt(a@, b@) == bytes_lt(a@.skip(i as int), b@.skip(i as int)),
        decreases a@.len() - i,
    {
        if a[i] != b[i] {
            return a[i] < b[i];
        }
        proof {
            assert(a@.skip(i as int).drop_first() =~= a@.skip(i + 1));
            assert(b@.skip(i as int).drop_first() =~= b@.skip(i + 1));
        }
        i = i + 1;
    }
    i < b.len()
}

/// How two lists of parts compare: whether the first comes before the
/// second, and whether they are equal.
fn parts_compare(a: &Vec<Vec<u8>>, b: &Vec<Vec<u8>>) -> (r: (bool, bool))
    ensures
        r.0 == parts_lt(a@.map_values(|p: Vec<u8>| p@), b@.map_values(|p: Vec<u8>| p@)),
        r.1 == (a@.map_values(|p: Vec<u8>| p@) == b@.map_values(|p: Vec<u8>| p@)),
{
    let ghost sa = a@.map_values(|p: Vec<u8>| p@);
    let ghost sb = b@.map_values(|p: Vec<u8>| p@);
    let mut i: usize = 0;
    proof {
        assert(sa.skip(0) =~= sa);
        assert(sb.skip(0) =~= sb);
    }
    while i < a.len() && i < b.len()
        invariant
            i <= a@.len(),
            i <= b@.len(),
            sa == a@.map_values(|p: Vec<u8>| p@),
            sb == b@.map_values(|p: Vec<u8>| p@),
            parts_lt(sa, sb) == parts_lt(sa.skip(i as int), sb.skip(i as int)),
            forall|j: int| 0 <= j < i ==> sa[j] == sb[j],
        decreases a@.len() - i,
    {
        assert(sa.skip(i as int)[0] == a@[i as int]@ && sb.skip(i as int)[0] == b@[i as int]@);
        if !bytes_eq(a[i].as_slice(), b[i].as_slice()) {
            assert(sa[i as int] != sb[i as int]);
            return (bytes_less(a[i].as_slice(), b[i].as_slice()), false);
        }
        proof {
            assert(sa.skip(i as int).drop_first() =~= sa.skip(i + 1));
            assert(sb.skip(i as int).drop_first() =~= sb.skip(i + 1));
        }
        i = i + 1;
    }
    if a.len() == b.len() {
        assert(sa =~= sb);
    }
    (i < b.len(), a.len() == b.len())
}

/// Why a namespaced identifier could not be parsed.
#[derive(Clone, Copy, PartialEq, Eq, Debug, Structural)]
pub enum IdentParseError {
    /// Some part contained symbols that are not allowed or started with a number.
    InvalidPart,
    /// The identifier was empty.
    Empty,
}

/// The parts of `s` separated by `::`.
pub open spec fn split_parts(s: Seq<u8>) -> Seq<Seq<u8>>
    decreases s.len(),
{
    if s.len() < 2 {
        seq![s]
    } else if s[0] == 58 && s[1] == 58 {
        seq![Seq::<u8>::empty()] + split_parts(s.skip(2))
    } else {
        let rest = split_parts(s.drop_first());
        rest.update(0, seq![s[0]] + rest[0])
    }
}

pub proof fn lemma_split_parts_nonempty(s: Seq<u8>)
    ensures
        split_parts(s).len() >= 1,
    decreases s.len(),
{
    if s.len() >= 2 {
        if s[0] == 58 && s[1] == 58 {
            lemma_split_parts_nonempty(s.skip(2));
        } else {
            lemma_split_parts_nonempty(s.drop_first());
        }
    }
}

/// Parts joined with `::` between them.
pub open spec fn joined(parts: Seq<Seq<u8>>) -> Seq<u8>
    decreases parts.len(),
{
    if parts.len() == 0 {
        Seq::empty()
    } else if parts.len() == 1 {
        parts[0]
    } else {
        parts[0] + seq![58u8, 58u8] + joined(parts.drop_first())
    }
}

proof fn lemma_text_is_joined(p: Seq<Seq<u8>>)
    requires
        p.len() >= 1,
    ensures
        ident_text(IdentView { namespace: p.drop_last(), ident: p.last() }) == joined(p),
    decreases p.len(),
{
    if p.len() > 1 {
        let q = p.drop_first();
        lemma_text_is_joined(q);
        assert(p.drop_last().drop_first() =~= q.drop_last());
        assert(p.drop_last()[0] == p[0]);
    }
}

proof fn lemma_joined_prepend(p: Seq<Seq<u8>>, x: Seq<u8>)
    requires
        p.len() >= 1,
    ensures
        joined(p.update(0, x + p[0])) == x + joined(p),
{
    let u = p.update(0, x + p[0]);
    if p.len() > 1 {
        assert(u.drop_first() =~= p.drop_first());
        assert(u[0] + seq![58u8, 58u8] + joined(u.drop_first()) =~= x + (p[0] + seq![58u8, 58u8] + joined(
            p.drop_first(),
        )));
    }
}

proof fn lemma_split_joined(s: Seq<u8>)
    ensures
        joined(split_parts(s)) == s,
    decreases s.len(),
{
    lemma_split_parts_nonempty(s);
    if s.len() < 2 {
    } else if s[0] == 58 && s[1] == 58 {
        let rest = split_parts(s.skip(2));
        lemma_split_joined(s.skip(2));
        lemma_split_parts_nonempty(s.skip(2));
        let p = seq![Seq::<u8>::empty()] + rest;
        assert(p.drop_first() =~= rest);
        assert(joined(p) == Seq::<u8>::empty() + seq![58u8, 58u8] + joined(rest));
        assert(s =~= seq![58u8, 58u8] + s.skip(2));
        assert(Seq::<u8>::empty() + seq![58u8, 58u8] + s.skip(2) =~= s);
    } else {
        let rest = split_parts(s.drop_first());
        lemma_split_joined(s.drop_first());
        lemma_split_parts_nonempty(s.drop_first());
        lemma_joined_prepend(rest, seq![s[0]]);
        assert(seq![s[0]] + s.drop_first() =~= s);
    }
}

/// The text of a parsed name is the text it was parsed from: the parts that
/// `parse` splits `s` into, joined again with `::`, give `s`.
pub proof fn lemma_parse_text_roundtrip(s: Seq<u8>)
    ensures
        ident_text(IdentView { namespace: split_parts(s).drop_last(), ident: split_parts(s).last() }) == s,
{
    lemma_split_parts_nonempty(s);
    lemma_text_is_joined(split_parts(s));
    lemma_split_joined(s);
}

/// Copy a list of byte strings.
pub fn copy_parts(parts: &Vec<Vec<u8>>) -> (r: Vec<Vec<u8>>)
    ensures
        r@.map_values(|p: Vec<u8>| p@) == parts@.map_values(|p: Vec<u8>| p@),
{
    let mut r: Vec<Vec<u8>> = Vec::new();
    let mut i: usize = 0;
    while i < parts.len()
        invariant
            i <= parts@.len(),
            r@.len() == i,
            forall|j: int| 0 <= j < i ==> (#[trigger] r@[j])@ == parts@[j]@,
        decreases parts@.len() - i,
    {
        r.push(copy_bytes(parts[i].as_slice()));
        i = i + 1;
    }
    assert(r@.map_values(|p: Vec<u8>| p@) =~= parts@.map_values(|p: Vec<u8>| p@));
    r
}

impl NamespacedIdent {
    pub fn new(namespace: Vec<Vec<u8>>, ident: Vec<u8>) -> (r: Self)
        ensures
            r.namespace == namespace,
            r.ident == ident,
    {
        Self { namespace, ident }
    }

    /// Split a nonempty list of parts into a namespace and a final identifier.
    pub fn from_parts(parts: Vec<Vec<u8>>) -> (r: Self)
        requires
            parts@.len() > 0,
        ensures
            r@.namespace == parts@.drop_last().map_values(|p: Vec<u8>| p@),
            r@.ident == parts@.last()@,
    {
        let mut parts = parts;
        let ghost p0 = parts@;
        let ident = parts.pop().unwrap();
        assert(parts@ == p0.drop_last());
        Self { namespace: parts, ident }
    }

    /// A copy of this identifier.
    pub fn duplicate(&self) -> (r: Self)
        ensures
            r@ == self@,
    {
        Self { namespace: copy_parts(&self.namespace), ident: copy_bytes(self.ident.as_slice()) }
    }

    /// Whether two identifiers are the same.
    pub fn same(&self, other: &Self) -> (r: bool)
        ensures
            r == (self@ == other@),
    {
        if self.namespace.len() != other.namespace.len() {
            assert(self@.namespace.len() != other@.namespace.len());
            return false;
        }
        let mut i: usize = 0;
        while i < self.namespace.len()
            invariant
                self.namespace@.len() == other.namespace@.len(),
                i <= self.namespace@.len(),
                forall|j: int| 0 <= j < i ==> self.namespace@[j]@ == other.namespace@[j]@,
            decreases self.namespace@.len() - i,
        {
            if !bytes_eq(self.namespace[i].as_slice(), other.namespace[i].as_slice()) {
                assert(self@.namespace[i as int] != other@.namespace[i as int]);
                return false;
            }
            i = i + 1;
        }
        assert(self@.namespace =~= other@.namespace);
        if !bytes_eq(self.ident.as_slice(), other.ident.as_slice()) {
            return false;
        }
        true
    }

    /// Whether this name comes before `other`: by namespace, then by
    /// identifier.
    pub fn less_than(&self, other: &Self) -> (r: bool)
        ensures
            r == ident_lt(self@, other@),
    {
        let (less, equal) = parts_compare(&self.namespace, &other.namespace);
        less || (equal && bytes_less(self.ident.as_slice(), other.ident.as_slice()))
    }

    /// Parse `a::b::C`; every part must match `^[a-zA-Z_]\w*$`.
    pub fn parse(s: &str) -> (r: Result<Self, IdentParseError>)
        ensures
            (forall|i: int| 0 <= i < split_parts(s.spec_bytes()).len()
                ==> #[trigger] ident_part_regex(split_parts(s.spec_bytes())[i])) <==> r is Ok,
            r matches Ok(id) ==> id@.namespace == split_parts(s.spec_bytes()).drop_last()
                && id@.ident == split_parts(s.spec_bytes()).last(),
    {
        let bytes = s.as_bytes();
        let parts = split_on_colons(bytes);
        proof {
            lemma_split_parts_nonempty(bytes@);
        }
        let mut i: usize = 0;
        while i < parts.len()
            invariant
                parts@.map_values(|p: Vec<u8>| p@) == split_parts(bytes@),
                bytes@ == s.spec_bytes(),
                i <= parts@.len(),
                forall|j: int| 0 <= j < i ==> #[trigger] ident_part_regex(split_parts(bytes@)[j]),
            decreases parts@.len() - i,
        {
            assert(parts@[i as int]@ == split_parts(bytes@)[i as int]);
            if !ident_part_matches(parts[i].as_slice()) {
                return Err(IdentParseError::InvalidPart);
            }
            i = i + 1;
        }
        if parts.len() == 0 {
            return Err(IdentParseError::Empty);
        }
        let r = Self::from_parts(parts);
        assert(r@.namespace =~= split_parts(bytes@).drop_last());
        Ok(r)
    }

    /// The namespace parts.
    pub fn namespace(&self) -> (r: &Vec<Vec<u8>>)
        ensures
            r == &self.namespace,
    {
        &self.namespace
    }

    /// The final identifier.
    pub fn ident(&self) -> (r: &Vec<u8>)
        ensures
            r == &self.ident,
    {
        &self.ident
    }

    /// Append the text `ns1::ns2::ident` to `out`.
    pub fn write_text(&self, out: &mut Vec<u8>)
        ensures
            final(out)@ == old(out)@ + ident_text(self@),
    {
        let ghost o0 = out@;
        let mut i: usize = 0;
        proof {
            assert(self@.namespace.skip(0) =~= self@.namespace);
            assert(IdentView { namespace: self@.namespace.skip(0), ident: self@.ident } == self@);
        }
        while i < self.namespace.len()
            invariant
                i <= self.namespace@.len(),
                o0 + ident_text(self@) == out@ + ident_text(IdentView {
                    namespace: self@.namespace.skip(i as int),
                    ident: self@.ident,
                }),
            decreases self.namespace@.len() - i,
        {
            let ghost rest = IdentView { namespace: self@.namespace.skip(i as int), ident: self@.ident };
            assert(rest.namespace.drop_first() =~= self@.namespace.skip(i + 1));
            push_bytes(out, self.namespace[i].as_slice());
            out.push(58u8);
            out.push(58u8);
            i = i + 1;
            assert(o0 + ident_text(self@) =~= out@ + ident_text(IdentView {
                namespace: self@.namespace.skip(i as int),
                ident: self@.ident,
            }));
        }
        assert(self@.namespace.skip(i as int) =~= Seq::<Seq<u8>>::empty());
        push_bytes(out, self.ident.as_slice());
    }
}

/// Split bytes on `::`.
fn split_on_colons(s: &[u8]) -> (r: Vec<Vec<u8>>)
    ensures
        r@.map_values(|p: Vec<u8>| p@) == split_parts(s@),
{
    let mut parts: Vec<Vec<u8>> = Vec::new();
    let mut cur: Vec<u8> = Vec::new();
    let mut i: usize = 0;
    proof {
        assert(s@.skip(0) =~= s@);
        lemma_split_parts_nonempty(s@);
        assert(split_parts(s@).update(0, Seq::<u8>::empty() + split_parts(s@)[0]) =~= split_parts(s@));
        assert(parts@.map_values(|p: Vec<u8>| p@) =~= Seq::<Seq<u8>>::empty());
    }
    while i < s.len()
        invariant
            i <= s@.len(),
            parts@.map_values(|p: Vec<u8>| p@) + split_parts(s@.skip(i as int)).update(
                0,
                cur@ + split_parts(s@.skip(i as int))[0],
            ) == split_parts(s@),
        decreases s@.len() - i,
    {
        let ghost t = s@.skip(i as int);
        let ghost pv = parts@.map_values(|p: Vec<u8>| p@);
        if i + 1 < s.len() && s[i] == 58 && s[i + 1] == 58 {
            proof {
                assert(t.skip(2) =~= s@.skip(i + 2));
                lemma_split_parts_nonempty(s@.skip(i + 2));
                let sp2 = split_parts(s@.skip(i + 2));
                assert(split_parts(t) == seq![Seq::<u8>::empty()] + sp2);
                assert(pv + (seq![Seq::<u8>::empty()] + sp2).update(0, cur@ + Seq::<u8>::empty())
                    =~= pv.push(cur@) + sp2.update(0, Seq::<u8>::empty() + sp2[0]));
            }
            let done = cur;
            parts.push(done);
            cur = Vec::new();
            i = i + 2;
            proof {
                assert(parts@.map_values(|p: Vec<u8>| p@) =~= pv.push(done@));
            }
        } else {
            proof {
                assert(t.drop_first() =~= s@.skip(i + 1));
                lemma_split_parts_nonempty(s@.skip(i + 1));
                let rest = split_parts(s@.skip(i + 1));
                if t.len() >= 2 {
                    assert(split_parts(t) == rest.update(0, seq![s@[i as int]] + rest[0]));
                } else {
                    assert(s@.skip(i + 1) =~= Seq::<u8>::empty());
                    assert(rest == seq![Seq::<u8>::empty()]);
                    assert(split_parts(t) == seq![t]);
                    assert(t =~= seq![s@[i as int]]);
                }
                let c = s@[i as int];
                let sp = split_parts(t);
                assert(sp == rest.update(0, seq![c] + rest[0]));
                assert(cur@ + sp[0] =~= cur@.push(c) + rest[0]);
                assert(sp.update(0, cur@ + sp[0]) =~= rest.update(0, cur@.push(c) + rest[0]));
            }
            cur.push(s[i]);
            i = i + 1;
        }
    }
    proof {
        assert(s@.skip(i as int) =~= Seq::<u8>::empty());
        assert(split_parts(s@.skip(i as int)) == seq![Seq::<u8>::empty()]);
    }
    let ghost pv = parts@.map_values(|p: Vec<u8>| p@);
    let last = cur;
    parts.push(last);
    proof {
        assert(parts@.map_values(|p: Vec<u8>| p@) =~= pv.push(last@));
        assert(pv + seq![Seq::<u8>::empty()].update(0, last@ + Seq::<u8>::empty()) =~= pv.push(last@));
    }
    parts
}


/// The fixed-width integer types of the language.
#[derive(Clone, Copy, PartialEq, Eq, Debug, Structural)]
pub enum IntType {
    U8,
    U16,
    U32,
    U64,
    I8,
    I16,
    I32,
    I64,
}

impl IntType {
    /// The largest value of the type.
    pub open spec fn max_spec(self) -> nat {
        match self {
            IntType::U8 => 0xff,
            IntType::U16 => 0xffff,
            IntType::U32 => 0xffff_ffff,
            IntType::U64 => 0xffff_ffff_ffff_ffff,
            IntType::I8 => 0x7f,
            IntType::I16 => 0x7fff,
            IntType::I32 => 0x7fff_ffff,
            IntType::I64 => 0x7fff_ffff_ffff_ffff,
        }
    }

    /// The size in bytes of the type.
    pub open spec fn size_spec(self) -> nat {
        match self {
            IntType::U8 | IntType::I8 => 1,
            IntType::U16 | IntType::I16 => 2,
            IntType::U32 | IntType::I32 => 4,
            IntType::U64 | IntType::I64 => 8,
        }
    }

    /// The name of the variant, as debug output writes it.
    pub open spec fn debug_name(self) -> Seq<u8> {
        match self {
            IntType::U8 => "U8".spec_bytes(),
            IntType::U16 => "U16".spec_bytes(),
            IntType::U32 => "U32".spec_bytes(),
            IntType::U64 => "U64".spec_bytes(),
            IntType::I8 => "I8".spec_bytes(),
            IntType::I16 => "I16".spec_bytes(),
            IntType::I32 => "I32".spec_bytes(),
            IntType::I64 => "I64".spec_bytes(),
        }
    }

    pub fn is_signed(&self) -> (r: bool)
        ensures
            r == (*self is I8 || *self is I16 || *self is I32 || *self is I64),
    {
        match self {
            IntType::U8 | IntType::U16 | IntType::U32 | IntType::U64 => false,
            IntType::I8 | IntType::I16 | IntType::I32 | IntType::I64 => true,
        }
    }

    pub fn max_value(&self) -> (r: u64)
        ensures
            r == self.max_spec(),
    {
        match self {
            IntType::U8 => 0xff,
            IntType::U16 => 0xffff,
            IntType::U32 => 0xffff_ffff,
            IntType::U64 => 0xffff_ffff_ffff_ffff,
            IntType::I8 => 0x7f,
            IntType::I16 => 0x7fff,
            IntType::I32 => 0x7fff_ffff,
            IntType::I64 => 0x7fff_ffff_ffff_ffff,
        }
    }

    /// Whether `value` is at most the largest value of the type.
    pub fn fits_u64(&self, value: u64) -> (r: bool)
        ensures
            r == (value <= self.max_spec()),
    {
        let max_val = self.max_value();
        value <= max_val
    }

    /// Append the name of the variant to `out`.
    pub fn write_debug_name(&self, out: &mut Vec<u8>)
        ensures
            final(out)@ == old(out)@ + self.debug_name(),
    {
        let s = match self {
            IntType::U8 => "U8",
            IntType::U16 => "U16",
            IntType::U32 => "U32",
            IntType::U64 => "U64",
            IntType::I8 => "I8",
            IntType::I16 => "I16",
            IntType::I32 => "I32",
            IntType::I64 => "I64",
        };
        push_bytes(out, s.as_bytes());
    }
}

/// Whether a handle is moved or copied to the receiver.
#[derive(Clone, Copy, PartialEq, Eq, Debug, Structural)]
pub enum HandleTransferType {
    Move,
    Copy,
}

/// How a buffer is passed: mapped into the receiver, copied through pointer
/// descriptors, or whichever the receiver prefers.
#[derive(Clone, Copy, PartialEq, Eq, Debug, Structural)]
pub enum BufferTransferMode {
    MapAlias,
    Pointer,
    AutoSelect,
}

/// Extra permissions of a mapped buffer.
#[derive(Clone, Copy, PartialEq, Eq, Debug, Structural)]
pub enum BufferExtraAttrs {
    /// No extra permissions.
    NoAttrs,
    AllowNonSecure,
    AllowNonDevice,
}

/// Which way data flows.
#[derive(Clone, Copy, PartialEq, Eq, Debug, Structural)]
pub enum Direction {
    In,
    Out,
}

/// The complete description of a buffer argument.
#[derive(Clone, Copy, PartialEq, Eq, Debug, Structural)]
pub struct BufferType {
    pub direction: Direction,
    pub transfer_mode: BufferTransferMode,
    pub extra_attrs: BufferExtraAttrs,
}

/// Markers that can follow a structure's name.
#[derive(Clone, Copy, PartialEq, Eq, Debug, Structural)]
pub enum StructMarker {
    LargeData,
    PrefersTransferMode(BufferTransferMode),
}

impl StructMarker {
    /// The marker as it is written in a source file.
    pub open spec fn display_spec(self) -> Seq<char> {
        match self {
            StructMarker::LargeData => "sf::LargeData"@,
            StructMarker::PrefersTransferMode(BufferTransferMode::MapAlias) => "sf::PrefersMapAliasTransferMode"@,
            StructMarker::PrefersTransferMode(BufferTransferMode::Pointer) => "sf::PrefersPointerTransferMode"@,
            StructMarker::PrefersTransferMode(BufferTransferMode::AutoSelect) => "sf::PrefersAutoSelectTransferMode"@,
        }
    }

    pub fn display(&self) -> (r: String)
        ensures
            r@ == self.display_spec(),
    {
        let s = match self {
            StructMarker::LargeData => "sf::LargeData",
            StructMarker::PrefersTransferMode(BufferTransferMode::MapAlias) => "sf::PrefersMapAliasTransferMode",
            StructMarker::PrefersTransferMode(BufferTransferMode::Pointer) => "sf::PrefersPointerTransferMode",
            StructMarker::PrefersTransferMode(BufferTransferMode::AutoSelect) => "sf::PrefersAutoSelectTransferMode",
        };
        s.to_owned()
    }
}

/// A type as it is written: a built-in type or the name of a defined one.
#[derive(Debug)]
pub enum NominalType {
    Int(IntType),
    Bool,
    F32,
    Bytes { size: u64, alignment: u64 },
    Unknown { size: Option<u64> },
    TypeName { name: NamespacedIdent, reference_location: Span },
}

/// A type with names resolved: a built-in type, or the index in the file of
/// the structure, enum or bitflags definition it stands for.
#[derive(Clone, Copy, PartialEq, Eq, Debug, Structural)]
pub enum StructuralType {
    Int(IntType),
    Bool,
    F32,
    Bytes { size: u64, alignment: u64 },
    Unknown { size: Option<u64> },
    Struct(usize),
    Enum(usize),
    Bitflags(usize),
}

impl StructuralType {
    pub open spec fn is_sized_spec(self) -> bool {
        !(self matches StructuralType::Unknown { size: None })
    }

    /// Whether the type has a known size.
    pub fn is_sized(&self) -> (r: bool)
        ensures
            r == self.is_sized_spec(),
    {
        match self {
            StructuralType::Unknown { size: None } => false,
            _ => true,
        }
    }
}

/// Everything that can be sent or received in a command: plain data, process
/// ids, objects, handles, arrays and buffers.
#[derive(Debug)]
pub enum ArgValue {
    /// sf::ClientProcessId
    ClientProcessId,
    /// T
    In(NominalType),
    /// sf::Out<T>
    Out(NominalType),
    /// sf::SharedPointer<T>
    InObject(NamespacedIdent, Span),
    /// sf::Out<sf::SharedPointer<T>>
    OutObject(Option<NamespacedIdent>, Span),
    /// sf::CopyHandle, sf::MoveHandle
    InHandle(HandleTransferType),
    /// sf::OutCopyHandle, sf::OutMoveHandle
    OutHandle(HandleTransferType),
    /// sf::InArray and its transfer-mode variants
    InArray(NominalType, Option<BufferTransferMode>),
    /// sf::OutArray and its transfer-mode variants
    OutArray(NominalType, Option<BufferTransferMode>),
    /// sf::InBuffer and its variants
    InBuffer(BufferTransferMode, BufferExtraAttrs),
    /// sf::OutBuffer and its variants
    OutBuffer(BufferTransferMode, BufferExtraAttrs),
}

/// A field of a structure.
#[derive(Debug)]
pub struct StructField {
    pub name: Vec<u8>,
    pub ty: NominalType,
    pub location: Span,
}

/// A structure definition.
#[derive(Debug)]
pub struct Struct {
    pub name: NamespacedIdent,
    pub is_large_data: bool,
    pub preferred_transfer_mode: Option<BufferTransferMode>,
    pub fields: Vec<StructField>,
    pub location: Span,
}

/// An arm of an enum.
#[derive(Debug)]
pub struct EnumArm {
    pub name: Vec<u8>,
    pub value: u64,
    pub location: Span,
}

/// An enum definition.
#[derive(Debug)]
pub struct Enum {
    pub name: NamespacedIdent,
    pub base_type: IntType,
    pub arms: Vec<EnumArm>,
    pub location: Span,
}

/// An arm of a bitflags definition.
#[derive(Debug)]
pub struct BitflagsArm {
    pub name: Vec<u8>,
    pub value: u64,
    pub location: Span,
}

/// A bitflags definition.
#[derive(Debug)]
pub struct Bitflags {
    pub name: NamespacedIdent,
    pub base_type: IntType,
    pub arms: Vec<BitflagsArm>,
    pub location: Span,
}

/// A command of an interface; its arguments are both its inputs and outputs.
#[derive(Debug)]
pub struct Command {
    pub id: u32,
    pub name: Vec<u8>,
    pub arguments: Vec<(Option<Vec<u8>>, ArgValue)>,
    pub location: Span,
}

/// An interface definition.
#[derive(Debug)]
pub struct Interface {
    pub name: NamespacedIdent,
    /// Whether the code generated should be using domain objects or not
    pub is_domain: bool,
    pub sm_names: Vec<Vec<u8>>,
    pub commands: Vec<Command>,
    pub location: Span,
}

/// A type alias definition.
#[derive(Debug)]
pub struct TypeAlias {
    pub name: NamespacedIdent,
    pub referenced_type: NominalType,
    pub location: Span,
}

/// A top-level item of a file.
#[derive(Debug)]
pub enum IpcFileItem {
    TypeAlias(TypeAlias),
    StructDef(Struct),
    EnumDef(Enum),
    BitflagsDef(Bitflags),
    InterfaceDef(Interface),
}

/// How many markers state a preferred transfer mode.
pub open spec fn pref_count(ms: Seq<StructMarker>) -> nat
    decreases ms.len(),
{
    if ms.len() == 0 {
        0
    } else {
        pref_count(ms.drop_last()) + if ms.last() is PrefersTransferMode {
            1nat
        } else {
            0nat
        }
    }
}

/// The mode of the last marker that states a preferred transfer mode.
pub open spec fn last_pref(ms: Seq<StructMarker>) -> Option<BufferTransferMode>
    decreases ms.len(),
{
    if ms.len() == 0 {
        None
    } else {
        match ms.last() {
            StructMarker::PrefersTransferMode(m) => Some(m),
            StructMarker::LargeData => last_pref(ms.drop_last()),
        }
    }
}

/// The preference markers among `ms`, as written, separated by commas.
pub open spec fn pref_names(ms: Seq<StructMarker>) -> Seq<u8>
    decreases ms.len(),
{
    if ms.len() == 0 {
        Seq::empty()
    } else if ms.last() is PrefersTransferMode {
        if pref_count(ms.drop_last()) == 0 {
            pref_names(ms.drop_last()) + encode_utf8(ms.last().display_spec())
        } else {
            pref_names(ms.drop_last()) + ", ".spec_bytes() + encode_utf8(ms.last().display_spec())
        }
    } else {
        pref_names(ms.drop_last())
    }
}

/// The error for a structure with more than one preference marker: it lists
/// them in a note.
pub open spec fn many_prefs_view(ms: Seq<StructMarker>) -> DiagnosticView {
    DiagnosticView {
        severity: Severity::Error,
        message: "No more that one transfer mode preference marker must be used".spec_bytes(),
        labels: Seq::empty(),
        notes: seq!["Found the following preference markers: ".spec_bytes() + pref_names(ms)],
    }
}

impl Struct {
    /// A structure with the given markers; at most one may state a preferred
    /// transfer mode.
    pub fn try_new(name: NamespacedIdent, fields: Vec<StructField>, markers: Vec<StructMarker>, location: Span) -> (r: Result<Self, Vec<Diagnostic>>)
        ensures
            (r is Ok) == (pref_count(markers@) <= 1),
            r matches Ok(s) ==> s.name == name && s.fields == fields && s.location == location
                && s.is_large_data == (exists|i: int| 0 <= i < markers@.len() && markers@[i] is LargeData)
                && s.preferred_transfer_mode == last_pref(markers@),
            r matches Err(ds) ==> ds@.len() == 1 && ds@[0]@ == many_prefs_view(markers@),
    {
        let mut is_large_data = false;
        let mut preferred: Option<BufferTransferMode> = None;
        let mut count: usize = 0;
        let mut i: usize = 0;
        while i < markers.len()
            invariant
                i <= markers@.len(),
                count == pref_count(markers@.take(i as int)),
                count <= i,
                preferred == last_pref(markers@.take(i as int)),
                is_large_data == (exists|j: int| 0 <= j < i && markers@[j] is LargeData),
            decreases markers@.len() - i,
        {
            proof {
                assert(markers@.take(i + 1).drop_last() =~= markers@.take(i as int));
            }
            match markers[i] {
                StructMarker::LargeData => {
                    is_large_data = true;
                },
                StructMarker::PrefersTransferMode(m) => {
                    preferred = Some(m);
                    count = count + 1;
                },
            }
            i = i + 1;
        }
        proof {
            assert(markers@.take(markers@.len() as int) =~= markers@);
        }
        if count > 1 {
            let mut message: Vec<u8> = Vec::new();
            push_bytes(&mut message, "No more that one transfer mode preference marker must be used".as_bytes());
            let mut note: Vec<u8> = Vec::new();
            push_bytes(&mut note, "Found the following preference markers: ".as_bytes());
            let mut first = true;
            let ghost prefix = note@;
            let mut j: usize = 0;
            while j < markers.len()
                invariant
                    j <= markers@.len(),
                    prefix == "Found the following preference markers: ".spec_bytes(),
                    note@ == prefix + pref_names(markers@.take(j as int)),
                    first == (pref_count(markers@.take(j as int)) == 0),
                decreases markers@.len() - j,
            {
                proof {
                    assert(markers@.take(j + 1).drop_last() =~= markers@.take(j as int));
                    assert(markers@.take(j + 1).last() == markers@[j as int]);
                }
                match markers[j] {
                    StructMarker::PrefersTransferMode(_) => {
                        if !first {
                            push_bytes(&mut note, ", ".as_bytes());
                        }
                        first = false;
                        let shown = markers[j].display();
                        push_bytes(&mut note, shown.as_str().as_bytes());
                    },
                    StructMarker::LargeData => {},
                }
                j = j + 1;
                proof {
                    assert(note@ =~= prefix + pref_names(markers@.take(j as int)));
                }
            }
            proof {
                assert(markers@.take(j as int) =~= markers@);
            }
            let mut notes: Vec<Vec<u8>> = Vec::new();
            notes.push(note);
            let d = Diagnostic { severity: Severity::Error, message, labels: Vec::new(), notes };
            proof {
                assert(d.labels@.map_values(|l: Label| l@) =~= Seq::<LabelView>::empty());
                assert(d.notes@.map_values(|n: Vec<u8>| n@) =~= many_prefs_view(markers@).notes);
                assert(d@ == many_prefs_view(markers@));
            }
            let mut ds: Vec<Diagnostic> = Vec::new();
            ds.push(d);
            return Err(ds);
        }
        Ok(Struct { name, is_large_data, preferred_transfer_mode: preferred, fields, location })
    }
}

} // verus!
