//! Naming conventions of definition files: types, enum and bitflags arms,
//! interfaces and commands in PascalCase, fields and arguments in snake_case,
//! namespaces in snake_case. A name that breaks them gets a warning that
//! shows it in the expected case.

use vstd::prelude::*;
use vstd::string::StringSliceAdditionalSpecFns;
use vstd::utf8::{decode_utf8, encode_utf8, valid_utf8};
use convert_case::{Case, Casing};
use crate::swipc::diagnostics::{Diagnostic, LabelStyle, LabelView, Severity, Span, warning_at};
use crate::swipc::model::{
    ArgValue, Command, IdentView, IpcFileItem, NamespacedIdent, StructField, EnumArm, BitflagsArm, ident_text,
};
use crate::swipc::text::{bytes_eq, copy_bytes, push_bytes, str_from_utf8};
use crate::swipc::typecheck::quoted;

verus! {

/// The cases that names are expected in.
#[derive(Clone, Copy, PartialEq, Eq, Debug, Structural)]
pub enum NameCase {
    Camel,
    Pascal,
    Snake,
    ScreamingSnake,
}

/// `text` converted to `case`: split into words and joined again the way
/// that case writes them.
pub uninterp spec fn converted_case(text: Seq<char>, case: NameCase) -> Seq<char>;

/// Convert a text to a case.
///
/// Calls `convert_case::Casing::to_case`, with `Case::Constant` for
/// SCREAMING_SNAKE_CASE; the contract names the result as a function of the
/// text and the case.
#[verifier::external_body]
fn to_case(s: &str, case: NameCase) -> (r: String)
    ensures
        r@ == converted_case(s@, case),
{
    let c = match case {
        NameCase::Camel => Case::Camel,
        NameCase::Pascal => Case::Pascal,
        NameCase::Snake => Case::Snake,
        NameCase::ScreamingSnake => Case::Constant,
    };
    s.to_case(c)
}

/// The bytes of a UTF-8 name converted to `case`.
pub open spec fn cased(name: Seq<u8>, case: NameCase) -> Seq<u8> {
    encode_utf8(converted_case(decode_utf8(name), case))
}

/// Convert a UTF-8 name to `case`.
pub(crate) fn cased_bytes(name: &[u8], case: NameCase) -> (r: Vec<u8>)
    requires
        valid_utf8(name@),
    ensures
        r@ == cased(name@, case),
{
    match str_from_utf8(name) {
        Ok(s) => {
            proof {
                vstd::utf8::encode_utf8_decode_utf8(s@);
            }
            let c = to_case(s, case);
            copy_bytes(c.as_str().as_bytes())
        },
        Err(_) => {
            proof {
                assert(false);
            }
            Vec::new()
        },
    }
}

/// The name of a case, written in that case.
pub open spec fn case_name_text(case: NameCase) -> Seq<u8> {
    match case {
        NameCase::Camel => "camelCase".spec_bytes(),
        NameCase::Pascal => "PascalCase".spec_bytes(),
        NameCase::Snake => "snake_case".spec_bytes(),
        NameCase::ScreamingSnake => "SCREAMING_SNAKE_CASE".spec_bytes(),
    }
}

/// The name of a case, written in that case.
pub fn case_name(case: NameCase) -> (r: &'static str)
    ensures
        r.spec_bytes() == case_name_text(case),
{
    match case {
        NameCase::Camel => "camelCase",
        NameCase::Pascal => "PascalCase",
        NameCase::Snake => "snake_case",
        NameCase::ScreamingSnake => "SCREAMING_SNAKE_CASE",
    }
}

/// `s` with an ASCII lower-case first letter made upper-case.
pub open spec fn capitalized(s: Seq<u8>) -> Seq<u8> {
    if s.len() > 0 && 97 <= s[0] <= 122 {
        seq![(s[0] - 32) as u8] + s.drop_first()
    } else {
        s
    }
}

/// `s` with its first letter upper-cased; the kinds of items that messages
/// name are ASCII, so an ASCII letter is all there is to change.
pub fn uppercase_first_letter(s: &[u8]) -> (r: Vec<u8>)
    ensures
        r@ == capitalized(s@),
{
    let mut r: Vec<u8> = Vec::new();
    if s.len() > 0 && 97 <= s[0] && s[0] <= 122 {
        r.push(s[0] - 32);
        push_bytes(&mut r, vstd::slice::slice_subrange(s, 1, s.len()));
        assert(r@ =~= capitalized(s@));
    } else {
        push_bytes(&mut r, s);
        assert(r@ =~= capitalized(s@));
    }
    r
}

/// A warning that a name breaks the convention: its message and where it
/// points.
pub type Finding = (Seq<u8>, Span);

/// The message about a plain name that is not in `case`.
pub open spec fn naming_message(name: Seq<u8>, item: Seq<u8>, case: NameCase) -> Seq<u8> {
    capitalized(item) + " name ".spec_bytes() + quoted(name) + " should be in ".spec_bytes()
        + case_name_text(case) + ", like ".spec_bytes() + quoted(cased(name, case))
}

/// The warnings about a plain name: one when it is not in `case`.
pub open spec fn name_findings(name: Seq<u8>, item: Seq<u8>, case: NameCase, at: Span) -> Seq<Finding> {
    if cased(name, case) == name {
        Seq::empty()
    } else {
        seq![(naming_message(name, item, case), at)]
    }
}

/// The namespace of a name with each part in snake_case.
pub open spec fn cased_namespace(ns: Seq<Seq<u8>>) -> Seq<Seq<u8>> {
    ns.map_values(|p: Seq<u8>| cased(p, NameCase::Snake))
}

/// The message about a namespaced name `id` whose namespace (when
/// `namespace_wrong`) or identifier (when `ident_wrong`) is not in its case;
/// `like` is the name in the expected cases.
pub open spec fn namespaced_message_for(
    id: IdentView,
    like: IdentView,
    item: Seq<u8>,
    case: NameCase,
    namespace_wrong: bool,
    ident_wrong: bool,
) -> Seq<u8> {
    let head = capitalized(item) + " name ".spec_bytes() + quoted(ident_text(id));
    let tail = ", like ".spec_bytes() + quoted(ident_text(like));
    if namespace_wrong && ident_wrong {
        head + " should have namespaces in camel_case and the identifier in ".spec_bytes()
            + case_name_text(case) + tail
    } else if namespace_wrong {
        head + " should have namespaces in camel_case".spec_bytes() + tail
    } else {
        head + " should have the identifier in ".spec_bytes() + case_name_text(case) + tail
    }
}

/// The message about a namespaced name that is not in the expected cases.
pub open spec fn namespaced_message(id: IdentView, item: Seq<u8>, case: NameCase) -> Seq<u8> {
    let ident_cased = cased(id.ident, case);
    let namespace_cased = cased_namespace(id.namespace);
    namespaced_message_for(
        id,
        IdentView { namespace: namespace_cased, ident: ident_cased },
        item,
        case,
        namespace_cased != id.namespace,
        ident_cased != id.ident,
    )
}

/// Write the message about a namespaced name.
fn write_namespaced_message(
    name: &NamespacedIdent,
    like: &NamespacedIdent,
    item_type: &str,
    case: NameCase,
    namespace_wrong: bool,
    ident_wrong: bool,
) -> (m: Vec<u8>)
    ensures
        m@ == namespaced_message_for(name@, like@, item_type.spec_bytes(), case, namespace_wrong, ident_wrong),
{
    let mut m = uppercase_first_letter(item_type.as_bytes());
    push_bytes(&mut m, " name ".as_bytes());
    push_bytes(&mut m, "`".as_bytes());
    name.write_text(&mut m);
    push_bytes(&mut m, "`".as_bytes());
    let ghost head = m@;
    if namespace_wrong && ident_wrong {
        push_bytes(&mut m, " should have namespaces in camel_case and the identifier in ".as_bytes());
        push_bytes(&mut m, case_name(case).as_bytes());
    } else if namespace_wrong {
        push_bytes(&mut m, " should have namespaces in camel_case".as_bytes());
    } else {
        push_bytes(&mut m, " should have the identifier in ".as_bytes());
        push_bytes(&mut m, case_name(case).as_bytes());
    }
    let ghost middle = m@;
    push_bytes(&mut m, ", like ".as_bytes());
    push_bytes(&mut m, "`".as_bytes());
    like.write_text(&mut m);
    push_bytes(&mut m, "`".as_bytes());
    assert(m@ =~= middle + (", like ".spec_bytes() + quoted(ident_text(like@))));
    assert(head =~= capitalized(item_type.spec_bytes()) + " name ".spec_bytes() + quoted(ident_text(name@)));
    m
}

/// The warnings about a namespaced name: one when its namespace is not in
/// snake_case or its identifier is not in `case`.
pub open spec fn namespaced_findings(id: IdentView, item: Seq<u8>, case: NameCase, at: Span) -> Seq<Finding> {
    if cased(id.ident, case) == id.ident && cased_namespace(id.namespace) == id.namespace {
        Seq::empty()
    } else {
        seq![(namespaced_message(id, item, case), at)]
    }
}

/// The diagnostics are warnings with the messages of `fs`, in order, each with
/// one primary label at the place of its finding.
pub open spec fn warnings_for(ds: Seq<Diagnostic>, fs: Seq<Finding>) -> bool {
    &&& ds.len() == fs.len()
    &&& forall|i: int| 0 <= i < ds.len() ==> {
        &&& (#[trigger] ds[i]).severity == Severity::Warning
        &&& ds[i].message@ == fs[i].0
        &&& ds[i].labels@.len() == 1
        &&& ds[i].labels@[0]@ == (LabelView { style: LabelStyle::Primary, span: fs[i].1, message: Seq::empty() })
        &&& ds[i].notes@.len() == 0
    }
}

/// The result reports the findings: `Ok` when there are none, else the
/// warnings for them.
pub open spec fn reported(r: Result<(), Vec<Diagnostic>>, fs: Seq<Finding>) -> bool {
    match r {
        Ok(_) => fs.len() == 0,
        Err(ds) => fs.len() > 0 && warnings_for(ds@, fs),
    }
}

/// Warnings for consecutive findings, side by side, are warnings for all of them.
proof fn lemma_warnings_concat(a: Seq<Diagnostic>, fa: Seq<Finding>, b: Seq<Diagnostic>, fb: Seq<Finding>)
    requires
        warnings_for(a, fa),
        warnings_for(b, fb),
    ensures
        warnings_for(a + b, fa + fb),
{
    assert forall|i: int| 0 <= i < (a + b).len() implies {
        &&& (#[trigger] (a + b)[i]).severity == Severity::Warning
        &&& (a + b)[i].message@ == (fa + fb)[i].0
        &&& (a + b)[i].labels@.len() == 1
        &&& (a + b)[i].labels@[0]@ == (LabelView { style: LabelStyle::Primary, span: (fa + fb)[i].1, message: Seq::empty() })
        &&& (a + b)[i].notes@.len() == 0
    } by {
        if i < a.len() {
            assert((a + b)[i] == a[i]);
        } else {
            assert((a + b)[i] == b[i - a.len()]);
        }
    }
}

/// Check that a plain name is in `case`.
pub fn check_naming(name: &[u8], item_type: &str, case: NameCase, location: Span) -> (r: Result<(), Vec<Diagnostic>>)
    requires
        valid_utf8(name@),
    ensures
        reported(r, name_findings(name@, item_type.spec_bytes(), case, location)),
{
    let c = cased_bytes(name, case);
    if bytes_eq(c.as_slice(), name) {
        return Ok(());
    }
    let mut m = uppercase_first_letter(item_type.as_bytes());
    push_bytes(&mut m, " name ".as_bytes());
    push_bytes(&mut m, "`".as_bytes());
    push_bytes(&mut m, name);
    push_bytes(&mut m, "`".as_bytes());
    push_bytes(&mut m, " should be in ".as_bytes());
    push_bytes(&mut m, case_name(case).as_bytes());
    push_bytes(&mut m, ", like ".as_bytes());
    push_bytes(&mut m, "`".as_bytes());
    push_bytes(&mut m, c.as_slice());
    push_bytes(&mut m, "`".as_bytes());
    assert(m@ =~= naming_message(name@, item_type.spec_bytes(), case));
    let mut ds: Vec<Diagnostic> = Vec::new();
    ds.push(warning_at(m, location));
    Err(ds)
}

/// Every part of a namespaced name is UTF-8.
pub open spec fn ident_utf8(id: IdentView) -> bool {
    &&& valid_utf8(id.ident)
    &&& forall|j: int| 0 <= j < id.namespace.len() ==> valid_utf8(#[trigger] id.namespace[j])
}

/// The parts of a namespace in snake_case, and whether any of them was not.
fn case_namespace(namespace: &Vec<Vec<u8>>) -> (r: (Vec<Vec<u8>>, bool))
    requires
        forall|j: int| 0 <= j < namespace@.len() ==> valid_utf8(#[trigger] namespace@[j]@),
    ensures
        r.0@.map_values(|p: Vec<u8>| p@) == cased_namespace(namespace@.map_values(|p: Vec<u8>| p@)),
        r.1 == (cased_namespace(namespace@.map_values(|p: Vec<u8>| p@)) != namespace@.map_values(|p: Vec<u8>| p@)),
{
    let ghost ns = namespace@.map_values(|p: Vec<u8>| p@);
    let mut cased_parts: Vec<Vec<u8>> = Vec::new();
    let mut wrong = false;
    let mut i: usize = 0;
    while i < namespace.len()
        invariant
            i <= ns.len(),
            ns == namespace@.map_values(|p: Vec<u8>| p@),
            forall|j: int| 0 <= j < namespace@.len() ==> valid_utf8(#[trigger] namespace@[j]@),
            cased_parts@.len() == i,
            forall|j: int| 0 <= j < i ==> (#[trigger] cased_parts@[j])@ == cased(ns[j], NameCase::Snake),
            wrong <==> exists|j: int| 0 <= j < i && cased(ns[j], NameCase::Snake) != ns[j],
        decreases ns.len() - i,
    {
        assert(valid_utf8(namespace@[i as int]@));
        assert(ns[i as int] == namespace@[i as int]@);
        let part = cased_bytes(namespace[i].as_slice(), NameCase::Snake);
        if !bytes_eq(part.as_slice(), namespace[i].as_slice()) {
            wrong = true;
        }
        cased_parts.push(part);
        i = i + 1;
    }
    assert(cased_parts@.map_values(|p: Vec<u8>| p@) =~= cased_namespace(ns));
    proof {
        if wrong {
            let j = choose|j: int| 0 <= j < i && cased(ns[j], NameCase::Snake) != ns[j];
            assert(cased_namespace(ns)[j] != ns[j]);
        } else {
            assert(cased_namespace(ns) =~= ns);
        }
    }
    (cased_parts, wrong)
}

/// Check that a namespaced name has its namespace in snake_case and its
/// identifier in `case`.
pub fn check_namespaced_naming(name: &NamespacedIdent, item_type: &str, case: NameCase, location: Span) -> (r: Result<(), Vec<Diagnostic>>)
    requires
        ident_utf8(name@),
    ensures
        reported(r, namespaced_findings(name@, item_type.spec_bytes(), case, location)),
{
    let ident_cased = cased_bytes(name.ident.as_slice(), case);
    let ghost ns = name@.namespace;
    assert forall|j: int| 0 <= j < name.namespace@.len() implies valid_utf8(#[trigger] name.namespace@[j]@) by {
        assert(name@.namespace[j] == name.namespace@[j]@);
    }
    let (namespace_cased, namespace_wrong) = case_namespace(&name.namespace);
    let ident_wrong = !bytes_eq(ident_cased.as_slice(), name.ident.as_slice());
    if !ident_wrong && !namespace_wrong {
        return Ok(());
    }
    let cased_name = NamespacedIdent::new(namespace_cased, ident_cased);
    assert(cased_name@ == (IdentView { namespace: cased_namespace(ns), ident: cased(name@.ident, case) }));
    let m = write_namespaced_message(name, &cased_name, item_type, case, namespace_wrong, ident_wrong);
    let mut ds: Vec<Diagnostic> = Vec::new();
    ds.push(warning_at(m, location));
    Err(ds)
}

/// The warnings about a struct field name.
pub open spec fn field_findings(f: StructField) -> Seq<Finding> {
    name_findings(f.name@, "struct field".spec_bytes(), NameCase::Snake, f.location)
}

/// The warnings about an enum arm name.
pub open spec fn enum_arm_findings(a: EnumArm) -> Seq<Finding> {
    name_findings(a.name@, "enum arm".spec_bytes(), NameCase::Pascal, a.location)
}

/// The warnings about a bitflags arm name.
pub open spec fn bitflags_arm_findings(a: BitflagsArm) -> Seq<Finding> {
    name_findings(a.name@, "bitflags arm".spec_bytes(), NameCase::Pascal, a.location)
}

/// The warnings about the name of an argument, if it has one; they point at
/// the command.
pub open spec fn argument_findings(a: (Option<Vec<u8>>, ArgValue), at: Span) -> Seq<Finding> {
    match a.0 {
        Some(n) => name_findings(n@, "argument".spec_bytes(), NameCase::Snake, at),
        None => Seq::empty(),
    }
}

/// The warnings about a command name and its argument names.
pub open spec fn command_findings(c: Command) -> Seq<Finding> {
    name_findings(c.name@, "command".spec_bytes(), NameCase::Pascal, c.location)
        + c.arguments@.map_values(|a: (Option<Vec<u8>>, ArgValue)| argument_findings(a, c.location)).flatten()
}

/// The warnings about the names of an item and of its parts, in order.
pub open spec fn item_findings(item: IpcFileItem) -> Seq<Finding> {
    match item {
        IpcFileItem::TypeAlias(a) => namespaced_findings(a.name@, "type alias".spec_bytes(), NameCase::Pascal, a.location),
        IpcFileItem::StructDef(s) => namespaced_findings(s.name@, "struct".spec_bytes(), NameCase::Pascal, s.location)
            + s.fields@.map_values(|f: StructField| field_findings(f)).flatten(),
        IpcFileItem::EnumDef(e) => namespaced_findings(e.name@, "enum".spec_bytes(), NameCase::Pascal, e.location)
            + e.arms@.map_values(|a: EnumArm| enum_arm_findings(a)).flatten(),
        IpcFileItem::BitflagsDef(b) => namespaced_findings(b.name@, "bitflags".spec_bytes(), NameCase::Pascal, b.location)
            + b.arms@.map_values(|a: BitflagsArm| bitflags_arm_findings(a)).flatten(),
        IpcFileItem::InterfaceDef(i) => namespaced_findings(i.name@, "interface".spec_bytes(), NameCase::Pascal, i.location)
            + i.commands@.map_values(|c: Command| command_findings(c)).flatten(),
    }
}

/// Every name in an item is UTF-8.
pub open spec fn item_names_utf8(item: IpcFileItem) -> bool {
    match item {
        IpcFileItem::TypeAlias(a) => ident_utf8(a.name@),
        IpcFileItem::StructDef(s) => ident_utf8(s.name@) && forall|j: int| 0 <= j < s.fields@.len() ==> valid_utf8(#[trigger] s.fields@[j].name@),
        IpcFileItem::EnumDef(e) => ident_utf8(e.name@) && forall|j: int| 0 <= j < e.arms@.len() ==> valid_utf8(#[trigger] e.arms@[j].name@),
        IpcFileItem::BitflagsDef(b) => ident_utf8(b.name@) && forall|j: int| 0 <= j < b.arms@.len() ==> valid_utf8(#[trigger] b.arms@[j].name@),
        IpcFileItem::InterfaceDef(i) => ident_utf8(i.name@) && forall|j: int| 0 <= j < i.commands@.len() ==> command_names_utf8(#[trigger] i.commands@[j]),
    }
}

/// The name of a command and those of its arguments are UTF-8.
pub open spec fn command_names_utf8(c: Command) -> bool {
    &&& valid_utf8(c.name@)
    &&& forall|k: int| 0 <= k < c.arguments@.len() ==> ((#[trigger] c.arguments@[k]).0 matches Some(n) ==> valid_utf8(n@))
}

/// Append what a check reported to the warnings found so far.
fn extend_result(out: &mut Vec<Diagnostic>, r: Result<(), Vec<Diagnostic>>, Ghost(done): Ghost<Seq<Finding>>, Ghost(fs): Ghost<Seq<Finding>>)
    requires
        warnings_for(old(out)@, done),
        reported(r, fs),
    ensures
        warnings_for(final(out)@, done + fs),
{
    match r {
        Ok(()) => {
            assert(done + fs =~= done);
        },
        Err(ds) => {
            let mut ds = ds;
            let ghost o = out@;
            let ghost d = ds@;
            out.append(&mut ds);
            proof {
                lemma_warnings_concat(o, done, d, fs);
            }
        },
    }
}

/// One more element of a list adds its findings at the end.
proof fn lemma_findings_step<T>(s: Seq<T>, i: int, f: spec_fn(T) -> Seq<Finding>)
    requires
        0 <= i < s.len(),
    ensures
        s.take(i + 1).map_values(f).flatten() == s.take(i).map_values(f).flatten() + f(s[i]),
{
    assert(s.take(i + 1).map_values(f) =~= s.take(i).map_values(f).push(f(s[i])));
    s.take(i).map_values(f).lemma_flatten_push(f(s[i]));
}

impl IpcFileItem {
    /// Check the names of the item and of its parts against the naming
    /// conventions; the warnings come in the order of the names.
    pub fn check_naming(&self) -> (r: Result<(), Vec<Diagnostic>>)
        requires
            item_names_utf8(*self),
        ensures
            reported(r, item_findings(*self)),
    {
        let mut res: Vec<Diagnostic> = Vec::new();
        let ghost mut done: Seq<Finding> = Seq::empty();
        match self {
            IpcFileItem::TypeAlias(a) => {
                let r = check_namespaced_naming(&a.name, "type alias", NameCase::Pascal, a.location);
                extend_result(&mut res, r, Ghost(done), Ghost(namespaced_findings(a.name@, "type alias".spec_bytes(), NameCase::Pascal, a.location)));
            },
            IpcFileItem::StructDef(s) => {
                let r = check_namespaced_naming(&s.name, "struct", NameCase::Pascal, s.location);
                let ghost head = namespaced_findings(s.name@, "struct".spec_bytes(), NameCase::Pascal, s.location);
                extend_result(&mut res, r, Ghost(done), Ghost(head));
                let ghost f = |x: StructField| field_findings(x);
                let mut j: usize = 0;
                while j < s.fields.len()
                    invariant
                        j <= s.fields@.len(),
                        f == (|x: StructField| field_findings(x)),
                        item_names_utf8(*self),
                        *self == IpcFileItem::StructDef(*s),
                        warnings_for(res@, head + s.fields@.take(j as int).map_values(f).flatten()),
                    decreases s.fields@.len() - j,
                {
                    let field = &s.fields[j];
                    assert(valid_utf8(s.fields@[j as int].name@));
                    let r = check_naming(field.name.as_slice(), "struct field", NameCase::Snake, field.location);
                    extend_result(&mut res, r, Ghost(head + s.fields@.take(j as int).map_values(f).flatten()), Ghost(f(*field)));
                    proof {
                        lemma_findings_step(s.fields@, j as int, f);
                    }
                    j = j + 1;
                }
                assert(s.fields@.take(j as int) =~= s.fields@);
            },
            IpcFileItem::EnumDef(e) => {
                let r = check_namespaced_naming(&e.name, "enum", NameCase::Pascal, e.location);
                let ghost head = namespaced_findings(e.name@, "enum".spec_bytes(), NameCase::Pascal, e.location);
                extend_result(&mut res, r, Ghost(done), Ghost(head));
                let ghost f = |x: EnumArm| enum_arm_findings(x);
                let mut j: usize = 0;
                while j < e.arms.len()
                    invariant
                        j <= e.arms@.len(),
                        f == (|x: EnumArm| enum_arm_findings(x)),
                        item_names_utf8(*self),
                        *self == IpcFileItem::EnumDef(*e),
                        warnings_for(res@, head + e.arms@.take(j as int).map_values(f).flatten()),
                    decreases e.arms@.len() - j,
                {
                    let arm = &e.arms[j];
                    assert(valid_utf8(e.arms@[j as int].name@));
                    let r = check_naming(arm.name.as_slice(), "enum arm", NameCase::Pascal, arm.location);
                    extend_result(&mut res, r, Ghost(head + e.arms@.take(j as int).map_values(f).flatten()), Ghost(f(*arm)));
                    proof {
                        lemma_findings_step(e.arms@, j as int, f);
                    }
                    j = j + 1;
                }
                assert(e.arms@.take(j as int) =~= e.arms@);
            },
            IpcFileItem::BitflagsDef(b) => {
                let r = check_namespaced_naming(&b.name, "bitflags", NameCase::Pascal, b.location);
                let ghost head = namespaced_findings(b.name@, "bitflags".spec_bytes(), NameCase::Pascal, b.location);
                extend_result(&mut res, r, Ghost(done), Ghost(head));
                let ghost f = |x: BitflagsArm| bitflags_arm_findings(x);
                let mut j: usize = 0;
                while j < b.arms.len()
                    invariant
                        j <= b.arms@.len(),
                        f == (|x: BitflagsArm| bitflags_arm_findings(x)),
                        item_names_utf8(*self),
                        *self == IpcFileItem::BitflagsDef(*b),
                        warnings_for(res@, head + b.arms@.take(j as int).map_values(f).flatten()),
                    decreases b.arms@.len() - j,
                {
                    let arm = &b.arms[j];
                    assert(valid_utf8(b.arms@[j as int].name@));
                    let r = check_naming(arm.name.as_slice(), "bitflags arm", NameCase::Pascal, arm.location);
                    extend_result(&mut res, r, Ghost(head + b.arms@.take(j as int).map_values(f).flatten()), Ghost(f(*arm)));
                    proof {
                        lemma_findings_step(b.arms@, j as int, f);
                    }
                    j = j + 1;
                }
                assert(b.arms@.take(j as int) =~= b.arms@);
            },
            IpcFileItem::InterfaceDef(i) => {
                let r = check_namespaced_naming(&i.name, "interface", NameCase::Pascal, i.location);
                let ghost head = namespaced_findings(i.name@, "interface".spec_bytes(), NameCase::Pascal, i.location);
                extend_result(&mut res, r, Ghost(done), Ghost(head));
                let ghost f = |x: Command| command_findings(x);
                let mut j: usize = 0;
                while j < i.commands.len()
                    invariant
                        j <= i.commands@.len(),
                        f == (|x: Command| command_findings(x)),
                        item_names_utf8(*self),
                        *self == IpcFileItem::InterfaceDef(*i),
                        warnings_for(res@, head + i.commands@.take(j as int).map_values(f).flatten()),
                    decreases i.commands@.len() - j,
                {
                    let command = &i.commands[j];
                    assert(command_names_utf8(i.commands@[j as int]));
                    let ghost before = head + i.commands@.take(j as int).map_values(f).flatten();
                    check_command_naming(&mut res, command, Ghost(before));
                    proof {
                        lemma_findings_step(i.commands@, j as int, f);
                    }
                    j = j + 1;
                }
                assert(i.commands@.take(j as int) =~= i.commands@);
            },
        }
        if res.len() == 0 {
            Ok(())
        } else {
            Err(res)
        }
    }
}

/// Check the name of a command and those of its arguments.
fn check_command_naming(res: &mut Vec<Diagnostic>, command: &Command, Ghost(done): Ghost<Seq<Finding>>)
    requires
        warnings_for(old(res)@, done),
        command_names_utf8(*command),
    ensures
        warnings_for(final(res)@, done + command_findings(*command)),
{
    let r = check_naming(command.name.as_slice(), "command", NameCase::Pascal, command.location);
    let ghost head = name_findings(command.name@, "command".spec_bytes(), NameCase::Pascal, command.location);
    extend_result(res, r, Ghost(done), Ghost(head));
    let ghost f = |a: (Option<Vec<u8>>, ArgValue)| argument_findings(a, command.location);
    let mut k: usize = 0;
    while k < command.arguments.len()
        invariant
            k <= command.arguments@.len(),
            f == (|a: (Option<Vec<u8>>, ArgValue)| argument_findings(a, command.location)),
            command_names_utf8(*command),
            warnings_for(res@, done + head + command.arguments@.take(k as int).map_values(f).flatten()),
        decreases command.arguments@.len() - k,
    {
        let ghost before = done + head + command.arguments@.take(k as int).map_values(f).flatten();
        assert((command.arguments@[k as int].0 matches Some(n) ==> valid_utf8(n@)));
        match &command.arguments[k].0 {
            Some(name) => {
                let r = check_naming(name.as_slice(), "argument", NameCase::Snake, command.location);
                extend_result(res, r, Ghost(before), Ghost(f(command.arguments@[k as int])));
            },
            None => {
                assert(before + f(command.arguments@[k as int]) =~= before);
            },
        }
        proof {
            lemma_findings_step(command.arguments@, k as int, f);
            assert(before + f(command.arguments@[k as int]) =~= done + head + command.arguments@.take(k + 1).map_values(f).flatten());
        }
        k = k + 1;
    }
    assert(command.arguments@.take(k as int) =~= command.arguments@);
    assert(done + head + command.arguments@.map_values(f).flatten() =~= done + command_findings(*command));
}

} // verus!
