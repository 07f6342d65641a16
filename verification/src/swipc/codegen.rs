//! What the code generator writes for types: the Rust text of a written type
//! as it stands inside generated code, and the `use` item it needs, relative
//! to the module that is being generated.

use vstd::prelude::*;
use crate::swipc::grammar::NominalView;
use crate::swipc::layout::{fields_layout_spec, layout_depth, layout_spec};
use crate::swipc::model::{
    Bitflags, BitflagsArm, Enum, EnumArm, IdentView, IntType, IpcFileItem, NamespacedIdent, NominalType, Struct,
    StructField, TypeAlias,
};
use crate::swipc::typecheck::IpcFile;
use crate::swipc::text::{bytes_eq, copy_bytes, decimal, push_bytes, push_decimal};
use crate::swipc::model::copy_parts;
use vstd::string::StringSliceAdditionalSpecFns;

verus! {

/// A piece of generated Rust text with the item it must import: the module
/// path and the item's name, as in `use path::Item;`.
#[derive(Debug)]
pub struct TypeTokens {
    pub text: Vec<u8>,
    pub import: Option<(Vec<u8>, Vec<u8>)>,
}

/// Generated text, by value.
pub struct TokensView {
    pub text: Seq<u8>,
    pub import: Option<(Seq<u8>, Seq<u8>)>,
}

impl View for TypeTokens {
    type V = TokensView;

    open spec fn view(&self) -> TokensView {
        TokensView {
            text: self.text@,
            import: match self.import {
                Some((p, n)) => Some((p@, n@)),
                None => None,
            },
        }
    }
}

/// From index `k` on, how far `a` and `b` agree part by part.
pub open spec fn common_from(a: Seq<Seq<u8>>, b: Seq<Seq<u8>>, k: nat) -> nat
    decreases a.len() - k,
{
    if k < a.len() && k < b.len() && a[k as int] == b[k as int] {
        common_from(a, b, k + 1)
    } else {
        k
    }
}

/// `super::` written `n` times.
pub open spec fn supers(n: nat) -> Seq<u8>
    decreases n,
{
    if n == 0 {
        Seq::empty()
    } else {
        supers((n - 1) as nat) + "super::".spec_bytes()
    }
}

/// Each part followed by `::`.
pub open spec fn parts_path(parts: Seq<Seq<u8>>) -> Seq<u8>
    decreases parts.len(),
{
    if parts.len() == 0 {
        Seq::empty()
    } else {
        parts_path(parts.drop_last()) + parts.last() + "::".spec_bytes()
    }
}

/// How the module of namespace `current` refers to `item`: by its bare name,
/// importing it from the path relative to `current` (up with `super` past
/// the common prefix, then down the rest of the item's namespace), unless
/// the item is in the same module.
pub open spec fn import_spec(current: Seq<Seq<u8>>, item: IdentView) -> TokensView {
    let k = common_from(current, item.namespace, 0);
    let path = supers((current.len() - k) as nat) + parts_path(item.namespace.subrange(k as int, item.namespace.len() as int));
    TokensView {
        text: item.ident,
        import: if path.len() == 0 {
            None
        } else {
            Some((path.take(path.len() - 2), item.ident))
        },
    }
}

/// The Rust name of an integer type.
pub open spec fn int_type_text(t: IntType) -> Seq<u8> {
    match t {
        IntType::U8 => "u8".spec_bytes(),
        IntType::U16 => "u16".spec_bytes(),
        IntType::U32 => "u32".spec_bytes(),
        IntType::U64 => "u64".spec_bytes(),
        IntType::I8 => "i8".spec_bytes(),
        IntType::I16 => "i16".spec_bytes(),
        IntType::I32 => "i32".spec_bytes(),
        IntType::I64 => "i64".spec_bytes(),
    }
}

/// The Rust text of a written type inside the module of namespace
/// `current`; `None` for the types the generator does not handle: byte
/// arrays with an alignment other than 1 and types of unknown layout.
pub open spec fn nominal_tokens_spec(current: Seq<Seq<u8>>, t: NominalView) -> Option<TokensView> {
    match t {
        NominalView::Int(i) => Some(TokensView { text: int_type_text(i), import: None }),
        NominalView::Bool => Some(TokensView { text: "bool".spec_bytes(), import: None }),
        NominalView::F32 => Some(TokensView { text: "f32".spec_bytes(), import: None }),
        NominalView::Bytes { size, alignment } => if alignment != 1 {
            None
        } else {
            Some(TokensView { text: "[u8; ".spec_bytes() + decimal(size as nat) + "]".spec_bytes(), import: None })
        },
        NominalView::Unknown { .. } => None,
        NominalView::TypeName { name, .. } => Some(import_spec(current, name)),
    }
}

proof fn lemma_common_from_stops(a: Seq<Seq<u8>>, b: Seq<Seq<u8>>, k: nat)
    requires
        !(k < a.len() && k < b.len() && a[k as int] == b[k as int]),
    ensures
        common_from(a, b, k) == k,
{
}

proof fn lemma_sep_len()
    ensures
        "::".spec_bytes().len() == 2,
{
    reveal_strlit("::");
    assert(vstd::string::is_ascii("::"));
    vstd::string::is_ascii_spec_bytes("::");
}

proof fn lemma_super_len()
    ensures
        "super::".spec_bytes().len() == 7,
{
    reveal_strlit("super::");
    assert(vstd::string::is_ascii("super::"));
    vstd::string::is_ascii_spec_bytes("super::");
}

/// The text of an integer type.
pub fn int_type_tokens(t: IntType) -> (r: Vec<u8>)
    ensures
        r@ == int_type_text(t),
{
    let s = match t {
        IntType::U8 => "u8",
        IntType::U16 => "u16",
        IntType::U32 => "u32",
        IntType::U64 => "u64",
        IntType::I8 => "i8",
        IntType::I16 => "i16",
        IntType::I32 => "i32",
        IntType::I64 => "i64",
    };
    let mut r: Vec<u8> = Vec::new();
    push_bytes(&mut r, s.as_bytes());
    proof {
        reveal_strlit("u8");
        reveal_strlit("u16");
        reveal_strlit("u32");
        reveal_strlit("u64");
        reveal_strlit("i8");
        reveal_strlit("i16");
        reveal_strlit("i32");
        reveal_strlit("i64");
    }
    r
}

/// How the module of namespace `current` refers to `item`, and the `use`
/// item that this needs.
pub fn import_in(current: &Vec<Vec<u8>>, item: &NamespacedIdent) -> (r: TypeTokens)
    ensures
        r@ == import_spec(current@.map_values(|p: Vec<u8>| p@), item@),
{
    let ghost cur = current@.map_values(|p: Vec<u8>| p@);
    let ghost imp = item@.namespace;
    let mut k: usize = 0;
    while k < current.len() && k < item.namespace.len() && bytes_eq(current[k].as_slice(), item.namespace[k].as_slice())
        invariant
            k <= current@.len(),
            k <= item.namespace@.len(),
            cur == current@.map_values(|p: Vec<u8>| p@),
            imp == item@.namespace,
            common_from(cur, imp, k as nat) == common_from(cur, imp, 0),
        decreases current@.len() - k,
    {
        k = k + 1;
    }
    proof {
        lemma_common_from_stops(cur, imp, k as nat);
    }
    let mut path: Vec<u8> = Vec::new();
    let mut i: usize = k;
    while i < current.len()
        invariant
            k <= i <= current@.len(),
            path@ == supers((i - k) as nat),
        decreases current@.len() - i,
    {
        push_bytes(&mut path, "super::".as_bytes());
        i = i + 1;
    }
    let ghost ups = path@;
    let mut j: usize = k;
    while j < item.namespace.len()
        invariant
            k <= j <= item.namespace@.len(),
            imp == item@.namespace,
            k <= imp.len(),
            path@ == ups + parts_path(imp.subrange(k as int, j as int)),
        decreases item.namespace@.len() - j,
    {
        proof {
            assert(imp.subrange(k as int, j + 1).drop_last() =~= imp.subrange(k as int, j as int));
            assert(imp.subrange(k as int, j + 1).last() == item.namespace@[j as int]@);
        }
        push_bytes(&mut path, item.namespace[j].as_slice());
        push_bytes(&mut path, "::".as_bytes());
        j = j + 1;
    }
    proof {
        reveal_strlit("::");
        reveal_strlit("super::");
    }
    let text = copy_bytes(item.ident.as_slice());
    if path.len() == 0 {
        TypeTokens { text, import: None }
    } else {
        proof {
            if imp.len() > k {
                let ps = imp.subrange(k as int, imp.len() as int);
                assert(ps.len() > 0);
                lemma_sep_len();
                assert(parts_path(ps) == parts_path(ps.drop_last()) + ps.last() + "::".spec_bytes());
                assert(parts_path(ps).len() >= 2);
            } else {
                assert(current@.len() > k);
                assert(supers((current@.len() - k) as nat).len() >= 7) by {
                    let n = (current@.len() - k) as nat;
                    lemma_super_len();
                    assert(supers(n) == supers((n - 1) as nat) + "super::".spec_bytes());
                }
                assert(path@.len() >= 2);
            }
        }
        let ghost full = path@;
        path.pop();
        path.pop();
        assert(path@ =~= full.take(full.len() - 2));
        TypeTokens { text, import: Some((path, copy_bytes(item.ident.as_slice()))) }
    }
}

/// The Rust text of a written type inside the module of namespace
/// `current`; `None` for a byte array with an alignment other than 1 and for
/// a type of unknown layout, which the generator does not handle.
pub fn nominal_tokens(current: &Vec<Vec<u8>>, t: &NominalType) -> (r: Option<TypeTokens>)
    ensures
        match nominal_tokens_spec(current@.map_values(|p: Vec<u8>| p@), t@) {
            Some(v) => r matches Some(x) && x@ == v,
            None => r is None,
        },
{
    proof {
        reveal_strlit("bool");
        reveal_strlit("f32");
        reveal_strlit("[u8; ");
        reveal_strlit("]");
    }
    match t {
        NominalType::Int(i) => Some(TypeTokens { text: int_type_tokens(*i), import: None }),
        NominalType::Bool => {
            let mut text: Vec<u8> = Vec::new();
            push_bytes(&mut text, "bool".as_bytes());
            Some(TypeTokens { text, import: None })
        },
        NominalType::F32 => {
            let mut text: Vec<u8> = Vec::new();
            push_bytes(&mut text, "f32".as_bytes());
            Some(TypeTokens { text, import: None })
        },
        NominalType::Bytes { size, alignment } => {
            if *alignment != 1 {
                return None;
            }
            let mut text: Vec<u8> = Vec::new();
            push_bytes(&mut text, "[u8; ".as_bytes());
            push_decimal(&mut text, *size);
            push_bytes(&mut text, "]".as_bytes());
            Some(TypeTokens { text, import: None })
        },
        NominalType::Unknown { .. } => None,
        NominalType::TypeName { name, .. } => Some(import_in(current, name)),
    }
}

/// Generated text with no import.
pub open spec fn plain(text: Seq<u8>) -> TokensView {
    TokensView { text, import: None }
}

/// Generated text that names an item imported from `path`.
pub open spec fn imported(path: Seq<u8>, item: Seq<u8>) -> TokensView {
    TokensView { text: item, import: Some((path, item)) }
}

/// `t` inside the brackets `open` and `close`, importing what `t` imports.
pub open spec fn wrapped(open: Seq<u8>, t: TokensView, close: Seq<u8>) -> TokensView {
    TokensView { text: open + t.text + close, import: t.import }
}

/// Tokens for a literal text, with no import.
pub fn plain_tokens(s: &str) -> (r: TypeTokens)
    ensures
        r@ == plain(s.spec_bytes()),
{
    let mut text: Vec<u8> = Vec::new();
    push_bytes(&mut text, s.as_bytes());
    TypeTokens { text, import: None }
}

/// Tokens naming `item`, imported from `path`.
pub fn imported_tokens(path: &str, item: &str) -> (r: TypeTokens)
    ensures
        r@ == imported(path.spec_bytes(), item.spec_bytes()),
{
    let mut text: Vec<u8> = Vec::new();
    push_bytes(&mut text, item.as_bytes());
    let mut p: Vec<u8> = Vec::new();
    push_bytes(&mut p, path.as_bytes());
    let mut n: Vec<u8> = Vec::new();
    push_bytes(&mut n, item.as_bytes());
    TypeTokens { text, import: Some((p, n)) }
}

/// `t` put inside the brackets `open` and `close`.
pub fn wrap_tokens(open: &str, t: TypeTokens, close: &str) -> (r: TypeTokens)
    ensures
        r@ == wrapped(open.spec_bytes(), t@, close.spec_bytes()),
{
    let mut text: Vec<u8> = Vec::new();
    push_bytes(&mut text, open.as_bytes());
    push_bytes(&mut text, t.text.as_slice());
    push_bytes(&mut text, close.as_bytes());
    TypeTokens { text, import: t.import }
}

// ---------------------------------------------------------------------------
// Type definitions

/// The code generated for one item: the namespace of the module it goes
/// into, its text, and the items it imports, in order.
#[derive(Debug)]
pub struct GeneratedItem {
    pub namespace: Vec<Vec<u8>>,
    pub text: Vec<u8>,
    pub imports: Vec<(Vec<u8>, Vec<u8>)>,
}

/// Generated code, by value.
pub struct GeneratedView {
    pub namespace: Seq<Seq<u8>>,
    pub text: Seq<u8>,
    pub imports: Seq<(Seq<u8>, Seq<u8>)>,
}

impl View for GeneratedItem {
    type V = GeneratedView;

    open spec fn view(&self) -> GeneratedView {
        GeneratedView {
            namespace: self.namespace@.map_values(|p: Vec<u8>| p@),
            text: self.text@,
            imports: self.imports@.map_values(|p: (Vec<u8>, Vec<u8>)| (p.0@, p.1@)),
        }
    }
}

/// The lower-case hexadecimal digits of `n`, without leading zeros.
pub open spec fn hex_lower(n: nat) -> Seq<u8>
    decreases n,
{
    if n < 16 {
        seq![hex_digit_char(n)]
    } else {
        hex_lower(n / 16).push(hex_digit_char(n % 16))
    }
}

/// The lower-case hexadecimal digit of `d`.
pub open spec fn hex_digit_char(d: nat) -> u8 {
    if d < 10 {
        (48 + d) as u8
    } else {
        (87 + d) as u8
    }
}

/// Append the lower-case hexadecimal digits of `n` to `a`.
pub fn push_hex_lower(a: &mut Vec<u8>, n: u64)
    ensures
        final(a)@ == old(a)@ + hex_lower(n as nat),
    decreases n,
{
    if n < 16 {
        let c: u8 = if n < 10 { (48 + n) as u8 } else { (87 + n) as u8 };
        a.push(c);
        assert(seq![c] =~= hex_lower(n as nat));
    } else {
        push_hex_lower(a, n / 16);
        let d = n % 16;
        let c: u8 = if d < 10 { (48 + d) as u8 } else { (87 + d) as u8 };
        a.push(c);
        assert(old(a)@ + hex_lower(n as nat) =~= old(a)@ + hex_lower((n / 16) as nat) + seq![c]);
    }
}

/// The arms of an enum, one per line.
pub open spec fn enum_arms_text(arms: Seq<EnumArm>) -> Seq<u8>
    decreases arms.len(),
{
    if arms.len() == 0 {
        Seq::empty()
    } else {
        enum_arms_text(arms.drop_last()) + "    ".spec_bytes() + arms.last().name@ + " = ".spec_bytes() + decimal(
            arms.last().value as nat,
        ) + ",\n".spec_bytes()
    }
}

/// An enum as a `#[repr]` Rust enum with its values.
pub open spec fn enum_spec(e: Enum) -> GeneratedView {
    GeneratedView {
        namespace: e.name@.namespace,
        text: "#[repr(".spec_bytes() + int_type_text(e.base_type) + ")]\npub enum ".spec_bytes() + e.name@.ident
            + " {\n".spec_bytes() + enum_arms_text(e.arms@) + "}\n".spec_bytes(),
        imports: Seq::empty(),
    }
}

/// The arms of a bitflags definition, on one line.
pub open spec fn bitflags_arms_text(arms: Seq<BitflagsArm>) -> Seq<u8>
    decreases arms.len(),
{
    if arms.len() == 0 {
        Seq::empty()
    } else {
        bitflags_arms_text(arms.drop_last()) + " const ".spec_bytes() + arms.last().name@ + " = 0x".spec_bytes()
            + hex_lower(arms.last().value as nat) + ";".spec_bytes()
    }
}

/// A bitflags definition as a call of the `bitflags!` macro, which it
/// imports.
pub open spec fn bitflags_spec(b: Bitflags) -> GeneratedView {
    GeneratedView {
        namespace: b.name@.namespace,
        text: "bitflags! {\n    pub struct ".spec_bytes() + b.name@.ident + " : ".spec_bytes() + int_type_text(b.base_type)
            + " {".spec_bytes() + bitflags_arms_text(b.arms@) + " }\n}\n".spec_bytes(),
        imports: seq![("bitflags".spec_bytes(), "bitflags".spec_bytes())],
    }
}

/// The imports that a piece of text needs: none or one.
pub open spec fn import_seq(i: Option<(Seq<u8>, Seq<u8>)>) -> Seq<(Seq<u8>, Seq<u8>)> {
    match i {
        Some(x) => seq![x],
        None => Seq::empty(),
    }
}

/// A type alias as a Rust type alias; `None` where the generator cannot
/// write the aliased type.
pub open spec fn type_alias_spec(a: TypeAlias) -> Option<GeneratedView> {
    match nominal_tokens_spec(a.name@.namespace, a.referenced_type@) {
        Some(k) => Some(
            GeneratedView {
                namespace: a.name@.namespace,
                text: "type ".spec_bytes() + a.name@.ident + " = ".spec_bytes() + k.text + ";\n".spec_bytes(),
                imports: import_seq(k.import),
            },
        ),
        None => None,
    }
}

/// The fields of a structure, one per line, and what their types import;
/// `None` where the generator cannot write a field's type.
pub open spec fn struct_fields_spec(ns: Seq<Seq<u8>>, fields: Seq<StructField>) -> Option<(Seq<u8>, Seq<(Seq<u8>, Seq<u8>)>)>
    decreases fields.len(),
{
    if fields.len() == 0 {
        Some((Seq::empty(), Seq::empty()))
    } else {
        match (struct_fields_spec(ns, fields.drop_last()), nominal_tokens_spec(ns, fields.last().ty@)) {
            (Some((t, i)), Some(k)) => Some(
                (t + "    ".spec_bytes() + fields.last().name@ + ": ".spec_bytes() + k.text + ",\n".spec_bytes(), i
                    + import_seq(k.import)),
            ),
            _ => None,
        }
    }
}

/// The size of a structure, where it has a layout.
pub open spec fn struct_size_spec(items: Seq<IpcFileItem>, s: Struct) -> Option<u64> {
    match fields_layout_spec(items, s.fields@, s.fields@.len() as int, layout_depth()) {
        Some(ls) => if layout_spec(ls).pos <= u64::MAX {
            Some(layout_spec(ls).pos as u64)
        } else {
            None
        },
        None => None,
    }
}

/// A structure as a `#[repr(C)]` Rust structure, followed by a check at
/// compile time that it has the size its layout gives; `None` where it has
/// no layout or the generator cannot write a field's type.
pub open spec fn struct_spec(items: Seq<IpcFileItem>, s: Struct) -> Option<GeneratedView> {
    let id = s.name@.ident;
    match (struct_size_spec(items, s), struct_fields_spec(s.name@.namespace, s.fields@)) {
        (Some(size), Some((fields, imports))) => Some(
            GeneratedView {
                namespace: s.name@.namespace,
                text: (if s.is_large_data {
                    "/// This struct is marked with sf::LargeData\n".spec_bytes()
                } else {
                    Seq::empty()
                }) + "#[repr(C)]\npub struct ".spec_bytes() + id + " {\n".spec_bytes() + fields
                    + "}\n// Static size check for ".spec_bytes() + id + " (expect ".spec_bytes() + decimal(size as nat)
                    + " bytes)\nconst _: fn() = || {\n    let _ = ::core::mem::transmute::<".spec_bytes() + id
                    + ", [u8; ".spec_bytes() + decimal(size as nat) + "]>;\n};\n\n".spec_bytes(),
                imports,
            },
        ),
        _ => None,
    }
}

/// The code for an enum.
pub fn gen_enum(e: &Enum) -> (r: GeneratedItem)
    ensures
        r@ == enum_spec(*e),
{
    let mut text: Vec<u8> = Vec::new();
    push_bytes(&mut text, "#[repr(".as_bytes());
    let it = int_type_tokens(e.base_type);
    push_bytes(&mut text, it.as_slice());
    push_bytes(&mut text, ")]\npub enum ".as_bytes());
    push_bytes(&mut text, e.name.ident.as_slice());
    push_bytes(&mut text, " {\n".as_bytes());
    let ghost head = text@;
    let mut i: usize = 0;
    while i < e.arms.len()
        invariant
            i <= e.arms@.len(),
            text@ == head + enum_arms_text(e.arms@.take(i as int)),
        decreases e.arms@.len() - i,
    {
        assert(e.arms@.take(i + 1).drop_last() =~= e.arms@.take(i as int));
        push_bytes(&mut text, "    ".as_bytes());
        push_bytes(&mut text, e.arms[i].name.as_slice());
        push_bytes(&mut text, " = ".as_bytes());
        push_decimal(&mut text, e.arms[i].value);
        push_bytes(&mut text, ",\n".as_bytes());
        i = i + 1;
    }
    assert(e.arms@.take(e.arms@.len() as int) =~= e.arms@);
    push_bytes(&mut text, "}\n".as_bytes());
    let namespace = copy_parts(&e.name.namespace);
    let imports: Vec<(Vec<u8>, Vec<u8>)> = Vec::new();
    let r = GeneratedItem { namespace, text, imports };
    assert(r@.imports =~= Seq::empty());
    r
}

/// The code for a bitflags definition.
pub fn gen_bitflags(b: &Bitflags) -> (r: GeneratedItem)
    ensures
        r@ == bitflags_spec(*b),
{
    let mut text: Vec<u8> = Vec::new();
    push_bytes(&mut text, "bitflags! {\n    pub struct ".as_bytes());
    push_bytes(&mut text, b.name.ident.as_slice());
    push_bytes(&mut text, " : ".as_bytes());
    let it = int_type_tokens(b.base_type);
    push_bytes(&mut text, it.as_slice());
    push_bytes(&mut text, " {".as_bytes());
    let ghost head = text@;
    let mut i: usize = 0;
    while i < b.arms.len()
        invariant
            i <= b.arms@.len(),
            text@ == head + bitflags_arms_text(b.arms@.take(i as int)),
        decreases b.arms@.len() - i,
    {
        assert(b.arms@.take(i + 1).drop_last() =~= b.arms@.take(i as int));
        push_bytes(&mut text, " const ".as_bytes());
        push_bytes(&mut text, b.arms[i].name.as_slice());
        push_bytes(&mut text, " = 0x".as_bytes());
        push_hex_lower(&mut text, b.arms[i].value);
        push_bytes(&mut text, ";".as_bytes());
        i = i + 1;
    }
    assert(b.arms@.take(b.arms@.len() as int) =~= b.arms@);
    push_bytes(&mut text, " }\n}\n".as_bytes());
    let namespace = copy_parts(&b.name.namespace);
    let mut imports: Vec<(Vec<u8>, Vec<u8>)> = Vec::new();
    let mut p: Vec<u8> = Vec::new();
    push_bytes(&mut p, "bitflags".as_bytes());
    let mut n: Vec<u8> = Vec::new();
    push_bytes(&mut n, "bitflags".as_bytes());
    imports.push((p, n));
    let r = GeneratedItem { namespace, text, imports };
    assert(r@.imports =~= seq![("bitflags".spec_bytes(), "bitflags".spec_bytes())]);
    r
}

/// The imports of generated text, as a list.
fn import_vec(i: Option<(Vec<u8>, Vec<u8>)>) -> (r: Vec<(Vec<u8>, Vec<u8>)>)
    ensures
        r@.map_values(|p: (Vec<u8>, Vec<u8>)| (p.0@, p.1@)) == import_seq(
            match i {
                Some((a, b)) => Some((a@, b@)),
                None => None,
            },
        ),
{
    let mut r: Vec<(Vec<u8>, Vec<u8>)> = Vec::new();
    match i {
        Some(x) => {
            r.push(x);
        },
        None => {},
    }
    assert(r@.map_values(|p: (Vec<u8>, Vec<u8>)| (p.0@, p.1@)) =~= import_seq(
        match i {
            Some((a, b)) => Some((a@, b@)),
            None => None,
        },
    ));
    r
}

/// The code for a type alias; `None` where the generator cannot write the
/// aliased type.
pub fn gen_type_alias(a: &TypeAlias) -> (r: Option<GeneratedItem>)
    ensures
        match type_alias_spec(*a) {
            Some(v) => r matches Some(g) && g@ == v,
            None => r is None,
        },
{
    let k = match nominal_tokens(&a.name.namespace, &a.referenced_type) {
        Some(k) => k,
        None => {
            return None;
        },
    };
    let mut text: Vec<u8> = Vec::new();
    push_bytes(&mut text, "type ".as_bytes());
    push_bytes(&mut text, a.name.ident.as_slice());
    push_bytes(&mut text, " = ".as_bytes());
    push_bytes(&mut text, k.text.as_slice());
    push_bytes(&mut text, ";\n".as_bytes());
    let imports = import_vec(k.import);
    Some(GeneratedItem { namespace: copy_parts(&a.name.namespace), text, imports })
}

/// The fields of a structure and what their types import.
fn gen_struct_fields(ns: &Vec<Vec<u8>>, fields: &Vec<StructField>) -> (r: Option<(Vec<u8>, Vec<(Vec<u8>, Vec<u8>)>)>)
    ensures
        match struct_fields_spec(ns@.map_values(|p: Vec<u8>| p@), fields@) {
            Some((t, i)) => r matches Some((rt, ri)) && rt@ == t && ri@.map_values(
                |p: (Vec<u8>, Vec<u8>)| (p.0@, p.1@),
            ) == i,
            None => r is None,
        },
{
    let ghost nsv = ns@.map_values(|p: Vec<u8>| p@);
    let mut text: Vec<u8> = Vec::new();
    let mut imports: Vec<(Vec<u8>, Vec<u8>)> = Vec::new();
    let mut i: usize = 0;
    assert(fields@.take(0) =~= Seq::<StructField>::empty());
    assert(imports@.map_values(|p: (Vec<u8>, Vec<u8>)| (p.0@, p.1@)) =~= Seq::<(Seq<u8>, Seq<u8>)>::empty());
    while i < fields.len()
        invariant
            i <= fields@.len(),
            nsv == ns@.map_values(|p: Vec<u8>| p@),
            struct_fields_spec(nsv, fields@.take(i as int)) == Some(
                (text@, imports@.map_values(|p: (Vec<u8>, Vec<u8>)| (p.0@, p.1@))),
            ),
        decreases fields@.len() - i,
    {
        assert(fields@.take(i + 1).drop_last() =~= fields@.take(i as int));
        let k = match nominal_tokens(ns, &fields[i].ty) {
            Some(k) => k,
            None => {
                proof {
                    lemma_fields_none_stays(nsv, fields@, i + 1, fields@.len() as int);
                    assert(fields@.take(fields@.len() as int) =~= fields@);
                }
                return None;
            },
        };
        push_bytes(&mut text, "    ".as_bytes());
        push_bytes(&mut text, fields[i].name.as_slice());
        push_bytes(&mut text, ": ".as_bytes());
        push_bytes(&mut text, k.text.as_slice());
        push_bytes(&mut text, ",\n".as_bytes());
        let ghost i0 = imports@.map_values(|p: (Vec<u8>, Vec<u8>)| (p.0@, p.1@));
        let ghost kv = k@;
        let mut more = import_vec(k.import);
        let ghost im0 = imports@;
        let ghost mo = more@;
        imports.append(&mut more);
        assert(imports@ =~= im0 + mo);
        assert(imports@.map_values(|p: (Vec<u8>, Vec<u8>)| (p.0@, p.1@)) =~= i0 + import_seq(kv.import));
        i = i + 1;
    }
    assert(fields@.take(fields@.len() as int) =~= fields@);
    Some((text, imports))
}

proof fn lemma_fields_none_stays(ns: Seq<Seq<u8>>, fields: Seq<StructField>, m: int, n: int)
    requires
        0 <= m <= n <= fields.len(),
        struct_fields_spec(ns, fields.take(m)) is None,
    ensures
        struct_fields_spec(ns, fields.take(n)) is None,
    decreases n - m,
{
    if m < n {
        assert(fields.take(m + 1).drop_last() =~= fields.take(m));
        lemma_fields_none_stays(ns, fields, m + 1, n);
    }
}

/// The code for a structure; `None` where it has no layout or the generator
/// cannot write a field's type.
pub fn gen_struct(file: &IpcFile, s: &Struct) -> (r: Option<GeneratedItem>)
    ensures
        match struct_spec(file.items_spec(), *s) {
            Some(v) => r matches Some(g) && g@ == v,
            None => r is None,
        },
{
    let size = match s.layout(file) {
        Some(l) => l.size(),
        None => {
            return None;
        },
    };
    let (fields, imports) = match gen_struct_fields(&s.name.namespace, &s.fields) {
        Some(f) => f,
        None => {
            return None;
        },
    };
    let mut text: Vec<u8> = Vec::new();
    if s.is_large_data {
        push_bytes(&mut text, "/// This struct is marked with sf::LargeData\n".as_bytes());
    }
    push_bytes(&mut text, "#[repr(C)]\npub struct ".as_bytes());
    push_bytes(&mut text, s.name.ident.as_slice());
    push_bytes(&mut text, " {\n".as_bytes());
    push_bytes(&mut text, fields.as_slice());
    push_bytes(&mut text, "}\n// Static size check for ".as_bytes());
    push_bytes(&mut text, s.name.ident.as_slice());
    push_bytes(&mut text, " (expect ".as_bytes());
    push_decimal(&mut text, size);
    push_bytes(&mut text, " bytes)\nconst _: fn() = || {\n    let _ = ::core::mem::transmute::<".as_bytes());
    push_bytes(&mut text, s.name.ident.as_slice());
    push_bytes(&mut text, ", [u8; ".as_bytes());
    push_decimal(&mut text, size);
    push_bytes(&mut text, "]>;\n};\n\n".as_bytes());
    Some(GeneratedItem { namespace: copy_parts(&s.name.namespace), text, imports })
}

} // verus!
