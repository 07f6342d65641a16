//! Type checking of SwIPC files: name resolution and the rules that every
//! definition has to follow. Each broken rule is reported as an error
//! diagnostic; the contracts give the exact list of diagnostics, with their
//! messages and labels.

use vstd::prelude::*;
use crate::swipc::diagnostics::{
    Diagnostic, DiagnosticView, LabelStyle, LabelView, Severity, Span, error_at, with_context,
    with_secondary_label, with_label_spec,
};
use crate::swipc::model::{
    IdentView, NamespacedIdent, ident_text, IntType, NominalType, StructuralType, ArgValue,
    StructField, Struct, EnumArm, Enum, BitflagsArm, Bitflags, Command, Interface, TypeAlias,
    IpcFileItem, ident_lt,
};
use crate::swipc::text::{push_bytes, push_decimal, decimal, bytes_eq};
use vstd::string::StringSliceAdditionalSpecFns;

verus! {

// ---------------------------------------------------------------------------
// Diagnostics

/// `s` between backquotes.
pub open spec fn quoted(s: Seq<u8>) -> Seq<u8> {
    "`".spec_bytes() + s + "`".spec_bytes()
}

/// Every diagnostic of the list is an error.
pub open spec fn all_errors(ds: Seq<Diagnostic>) -> bool {
    forall|i: int| 0 <= i < ds.len() ==> (#[trigger] ds[i]).severity == Severity::Error
}

/// The diagnostics of a list, by value.
pub open spec fn views(ds: Seq<Diagnostic>) -> Seq<DiagnosticView> {
    ds.map_values(|d: Diagnostic| d@)
}

/// An error with a message and one primary label at `span`.
pub open spec fn error_view(message: Seq<u8>, span: Span) -> DiagnosticView {
    DiagnosticView {
        severity: Severity::Error,
        message,
        labels: seq![LabelView { style: LabelStyle::Primary, span, message: Seq::empty() }],
        notes: Seq::empty(),
    }
}

/// An error about a repeated definition: a primary label at `span`, and a
/// secondary label at `previous` with the message `note`.
pub open spec fn repeated_view(message: Seq<u8>, span: Span, previous: Span, note: Seq<u8>) -> DiagnosticView {
    with_label_spec(error_view(message, span), previous, note)
}

/// Each diagnostic of `ds` with a secondary label at `span` with `message`,
/// saying in what context it arose.
pub open spec fn in_context(ds: Seq<DiagnosticView>, span: Span, message: Seq<u8>) -> Seq<DiagnosticView> {
    ds.map_values(|d: DiagnosticView| with_label_spec(d, span, message))
}

/// A check result agrees with the list of diagnostics it should report:
/// success exactly when the list is empty, else errors that are exactly
/// those diagnostics.
pub open spec fn reports<T>(r: Result<T, Vec<Diagnostic>>, ds: Seq<DiagnosticView>) -> bool {
    match r {
        Ok(_) => ds.len() == 0,
        Err(e) => ds.len() > 0 && views(e@) == ds && all_errors(e@),
    }
}

proof fn lemma_views_append(a: Seq<Diagnostic>, b: Seq<Diagnostic>)
    ensures
        views(a + b) == views(a) + views(b),
{
    assert(views(a + b) =~= views(a) + views(b));
}

/// A message made of a prefix and a quoted byte string.
fn quoted_message(prefix: &str, body: &[u8]) -> (r: Vec<u8>)
    ensures
        r@ == prefix.spec_bytes() + quoted(body@),
{
    let mut m: Vec<u8> = Vec::new();
    push_bytes(&mut m, prefix.as_bytes());
    push_bytes(&mut m, "`".as_bytes());
    push_bytes(&mut m, body);
    push_bytes(&mut m, "`".as_bytes());
    assert(m@ =~= prefix.spec_bytes() + quoted(body@));
    m
}

/// A message made of a prefix and a quoted identifier.
fn quoted_ident_message(prefix: &str, id: &NamespacedIdent) -> (r: Vec<u8>)
    ensures
        r@ == prefix.spec_bytes() + quoted(ident_text(id@)),
{
    let mut m: Vec<u8> = Vec::new();
    push_bytes(&mut m, prefix.as_bytes());
    push_bytes(&mut m, "`".as_bytes());
    id.write_text(&mut m);
    push_bytes(&mut m, "`".as_bytes());
    assert(m@ =~= prefix.spec_bytes() + quoted(ident_text(id@)));
    m
}

/// A list holding one error diagnostic.
fn one_error(message: Vec<u8>, span: Span) -> (r: Vec<Diagnostic>)
    ensures
        views(r@) == seq![error_view(message@, span)],
        all_errors(r@),
{
    let mut r: Vec<Diagnostic> = Vec::new();
    r.push(error_at(message, span));
    proof {
        assert(views(r@) =~= seq![error_view(message@, span)]);
    }
    r
}

/// A list holding one error about a repeated definition.
fn repeated_error(message: Vec<u8>, span: Span, previous: Span, note: &[u8]) -> (r: Vec<Diagnostic>)
    ensures
        views(r@) == seq![repeated_view(message@, span, previous, note@)],
        all_errors(r@),
{
    let ghost m = message@;
    let mut d = error_at(message, span);
    assert(d@ == error_view(m, span));
    with_secondary_label(&mut d, previous, note);
    let mut r: Vec<Diagnostic> = Vec::new();
    r.push(d);
    proof {
        assert(views(r@) =~= seq![repeated_view(m, span, previous, note@)]);
    }
    r
}

/// Say in what context the diagnostics of a failed check arose.
fn add_context(e: Vec<Diagnostic>, span: Span, message: &[u8]) -> (r: Vec<Diagnostic>)
    requires
        all_errors(e@),
    ensures
        views(r@) == in_context(views(e@), span, message@),
        all_errors(r@),
        r@.len() == e@.len(),
{
    let mut e = e;
    let ghost before = e@;
    with_context(&mut e, span, message);
    proof {
        assert(views(e@) =~= in_context(views(before), span, message@));
    }
    e
}

/// Append the diagnostics of a check to `res`.
fn extend_result(res: &mut Vec<Diagnostic>, r: Result<(), Vec<Diagnostic>>, Ghost(ds): Ghost<Seq<DiagnosticView>>)
    requires
        reports(r, ds),
        all_errors(old(res)@),
    ensures
        views(final(res)@) == views(old(res)@) + ds,
        all_errors(final(res)@),
{
    match r {
        Ok(_) => {
            assert(views(res@) + ds =~= views(res@));
        },
        Err(e) => {
            let mut e = e;
            let ghost r0 = res@;
            let ghost d0 = e@;
            res.append(&mut e);
            proof {
                lemma_views_append(r0, d0);
            }
        },
    }
}

/// Turn collected diagnostics into a result.
fn finish(res: Vec<Diagnostic>, Ghost(ds): Ghost<Seq<DiagnosticView>>) -> (r: Result<(), Vec<Diagnostic>>)
    requires
        views(res@) == ds,
        all_errors(res@),
    ensures
        reports(r, ds),
{
    if res.len() == 0 {
        Ok(())
    } else {
        Err(res)
    }
}

// ---------------------------------------------------------------------------
// Finding definitions

/// The name of a type definition; interfaces have none.
pub open spec fn item_type_name(it: IpcFileItem) -> Option<IdentView> {
    match it {
        IpcFileItem::TypeAlias(a) => Some(a.name@),
        IpcFileItem::StructDef(s) => Some(s.name@),
        IpcFileItem::EnumDef(e) => Some(e.name@),
        IpcFileItem::BitflagsDef(b) => Some(b.name@),
        IpcFileItem::InterfaceDef(_) => None,
    }
}

/// The name of an interface definition; type definitions have none.
pub open spec fn item_interface_name(it: IpcFileItem) -> Option<IdentView> {
    match it {
        IpcFileItem::InterfaceDef(i) => Some(i.name@),
        _ => None,
    }
}

/// The index of the first type definition named `name`, from index `i` on.
pub open spec fn find_type_from(items: Seq<IpcFileItem>, name: IdentView, i: int) -> Option<int>
    decreases items.len() - i,
{
    if i < 0 || i >= items.len() {
        None
    } else if item_type_name(items[i]) == Some(name) {
        Some(i)
    } else {
        find_type_from(items, name, i + 1)
    }
}

/// The index of the first type definition named `name`.
pub open spec fn find_type(items: Seq<IpcFileItem>, name: IdentView) -> Option<int> {
    find_type_from(items, name, 0)
}

/// The index of the first interface definition named `name`, from index `i` on.
pub open spec fn find_interface_from(items: Seq<IpcFileItem>, name: IdentView, i: int) -> Option<int>
    decreases items.len() - i,
{
    if i < 0 || i >= items.len() {
        None
    } else if item_interface_name(items[i]) == Some(name) {
        Some(i)
    } else {
        find_interface_from(items, name, i + 1)
    }
}

/// The index of the first interface definition named `name`.
pub open spec fn find_interface(items: Seq<IpcFileItem>, name: IdentView) -> Option<int> {
    find_interface_from(items, name, 0)
}

proof fn lemma_find_type_hit(items: Seq<IpcFileItem>, name: IdentView, i0: int, i: int)
    requires
        0 <= i0 <= i < items.len(),
        item_type_name(items[i]) == Some(name),
        forall|j: int| i0 <= j < i ==> item_type_name(#[trigger] items[j]) != Some(name),
    ensures
        find_type_from(items, name, i0) == Some(i),
    decreases i - i0,
{
    if i0 < i {
        lemma_find_type_hit(items, name, i0 + 1, i);
    }
}

proof fn lemma_find_type_miss(items: Seq<IpcFileItem>, name: IdentView, i0: int)
    requires
        0 <= i0 <= items.len(),
        forall|j: int| i0 <= j < items.len() ==> item_type_name(#[trigger] items[j]) != Some(name),
    ensures
        find_type_from(items, name, i0) is None,
    decreases items.len() - i0,
{
    if i0 < items.len() {
        lemma_find_type_miss(items, name, i0 + 1);
    }
}

proof fn lemma_find_interface_hit(items: Seq<IpcFileItem>, name: IdentView, i0: int, i: int)
    requires
        0 <= i0 <= i < items.len(),
        item_interface_name(items[i]) == Some(name),
        forall|j: int| i0 <= j < i ==> item_interface_name(#[trigger] items[j]) != Some(name),
    ensures
        find_interface_from(items, name, i0) == Some(i),
    decreases i - i0,
{
    if i0 < i {
        lemma_find_interface_hit(items, name, i0 + 1, i);
    }
}

proof fn lemma_find_interface_miss(items: Seq<IpcFileItem>, name: IdentView, i0: int)
    requires
        0 <= i0 <= items.len(),
        forall|j: int| i0 <= j < items.len() ==> item_interface_name(#[trigger] items[j]) != Some(name),
    ensures
        find_interface_from(items, name, i0) is None,
    decreases items.len() - i0,
{
    if i0 < items.len() {
        lemma_find_interface_miss(items, name, i0 + 1);
    }
}

/// Whether an item is a type definition named `name`.
fn defines_type(item: &IpcFileItem, name: &NamespacedIdent) -> (r: bool)
    ensures
        r == (item_type_name(*item) == Some(name@)),
{
    match item {
        IpcFileItem::TypeAlias(a) => a.name.same(name),
        IpcFileItem::StructDef(s) => s.name.same(name),
        IpcFileItem::EnumDef(e) => e.name.same(name),
        IpcFileItem::BitflagsDef(b) => b.name.same(name),
        IpcFileItem::InterfaceDef(_) => false,
    }
}

/// Whether an item is an interface definition named `name`.
fn defines_interface(item: &IpcFileItem, name: &NamespacedIdent) -> (r: bool)
    ensures
        r == (item_interface_name(*item) == Some(name@)),
{
    match item {
        IpcFileItem::InterfaceDef(i) => i.name.same(name),
        _ => false,
    }
}

/// The names defined in a file, looked up the way the type checker does:
/// the first definition of a name is the one that counts.
pub struct TypecheckContext<'a> {
    pub items: &'a [IpcFileItem],
}

/// The message for a type name that nothing defines.
pub open spec fn unresolved_type_message(name: IdentView) -> Seq<u8> {
    "Could not resolve type named ".spec_bytes() + quoted(ident_text(name))
}

/// The message for an interface name that nothing defines.
pub open spec fn unresolved_interface_message(name: IdentView) -> Seq<u8> {
    "Could not resolve interface named ".spec_bytes() + quoted(ident_text(name))
}

impl<'a> TypecheckContext<'a> {
    /// The index of the definition of the type named `name`.
    pub fn resolve_type(&self, name: &NamespacedIdent, reference_location: &Span) -> (r: Result<usize, Vec<Diagnostic>>)
        ensures
            match find_type(self.items@, name@) {
                Some(k) => r == Ok::<usize, Vec<Diagnostic>>(k as usize),
                None => reports(r, seq![error_view(unresolved_type_message(name@), *reference_location)]),
            },
    {
        let mut i: usize = 0;
        while i < self.items.len()
            invariant
                i <= self.items@.len(),
                forall|j: int| 0 <= j < i ==> item_type_name(#[trigger] self.items@[j]) != Some(name@),
            decreases self.items@.len() - i,
        {
            if defines_type(&self.items[i], name) {
                proof {
                    lemma_find_type_hit(self.items@, name@, 0, i as int);
                }
                return Ok(i);
            }
            i = i + 1;
        }
        proof {
            lemma_find_type_miss(self.items@, name@, 0);
        }
        let m = quoted_ident_message("Could not resolve type named ", name);
        Err(one_error(m, *reference_location))
    }

    /// The index of the definition of the interface named `name`.
    pub fn resolve_interface(&self, name: &NamespacedIdent, reference_location: &Span) -> (r: Result<usize, Vec<Diagnostic>>)
        ensures
            match find_interface(self.items@, name@) {
                Some(k) => r == Ok::<usize, Vec<Diagnostic>>(k as usize),
                None => reports(r, seq![error_view(unresolved_interface_message(name@), *reference_location)]),
            },
    {
        let mut i: usize = 0;
        while i < self.items.len()
            invariant
                i <= self.items@.len(),
                forall|j: int| 0 <= j < i ==> item_interface_name(#[trigger] self.items@[j]) != Some(name@),
            decreases self.items@.len() - i,
        {
            if defines_interface(&self.items[i], name) {
                proof {
                    lemma_find_interface_hit(self.items@, name@, 0, i as int);
                }
                return Ok(i);
            }
            i = i + 1;
        }
        proof {
            lemma_find_interface_miss(self.items@, name@, 0);
        }
        let m = quoted_ident_message("Could not resolve interface named ", name);
        Err(one_error(m, *reference_location))
    }
}

// ---------------------------------------------------------------------------
// Resolving types

/// The message for an alias chain too long to follow.
pub open spec fn too_deep_message() -> Seq<u8> {
    "Resolve recursion limit exceeded".spec_bytes()
}

/// The context label added at each alias followed.
pub open spec fn while_resolving(name: IdentView) -> Seq<u8> {
    "While resolving type named ".spec_bytes() + quoted(ident_text(name))
}

/// Resolve a written type, following at most `depth` type aliases: the
/// structural type, or the one error that stops it, with a context label at
/// each alias that led to it.
pub open spec fn resolve_spec(items: Seq<IpcFileItem>, t: NominalType, depth: nat) -> Result<StructuralType, DiagnosticView>
    decreases depth,
{
    match t {
        NominalType::Int(i) => Ok(StructuralType::Int(i)),
        NominalType::Bool => Ok(StructuralType::Bool),
        NominalType::F32 => Ok(StructuralType::F32),
        NominalType::Bytes { size, alignment } => Ok(StructuralType::Bytes { size, alignment }),
        NominalType::Unknown { size } => Ok(StructuralType::Unknown { size }),
        NominalType::TypeName { name, reference_location } => match find_type(items, name@) {
            None => Err(error_view(unresolved_type_message(name@), reference_location)),
            Some(k) => match items[k] {
                IpcFileItem::TypeAlias(a) => if depth == 0 {
                    Err(error_view(too_deep_message(), a.location))
                } else {
                    match resolve_spec(items, a.referenced_type, (depth - 1) as nat) {
                        Ok(s) => Ok(s),
                        Err(d) => Err(with_label_spec(d, reference_location, while_resolving(name@))),
                    }
                },
                IpcFileItem::StructDef(_) => Ok(StructuralType::Struct(k as usize)),
                IpcFileItem::EnumDef(_) => Ok(StructuralType::Enum(k as usize)),
                IpcFileItem::BitflagsDef(_) => Ok(StructuralType::Bitflags(k as usize)),
                IpcFileItem::InterfaceDef(_) => Err(error_view(too_deep_message(), reference_location)),
            },
        },
    }
}

/// How many type aliases a resolution may follow.
pub open spec fn resolve_depth() -> nat {
    16
}

/// A resolution result agrees with the specified resolution.
pub open spec fn resolves_as(r: Result<StructuralType, Vec<Diagnostic>>, res: Result<StructuralType, DiagnosticView>) -> bool {
    match res {
        Ok(t) => r == Ok::<StructuralType, Vec<Diagnostic>>(t),
        Err(d) => reports(r, seq![d]),
    }
}

proof fn lemma_find_type_bounds(items: Seq<IpcFileItem>, name: IdentView, i0: int)
    requires
        0 <= i0,
    ensures
        find_type_from(items, name, i0) matches Some(k) ==> i0 <= k < items.len()
            && item_type_name(items[k]) == Some(name),
    decreases items.len() - i0,
{
    if i0 < items.len() {
        lemma_find_type_bounds(items, name, i0 + 1);
    }
}

proof fn lemma_find_interface_bounds(items: Seq<IpcFileItem>, name: IdentView, i0: int)
    requires
        0 <= i0,
    ensures
        find_interface_from(items, name, i0) matches Some(k) ==> i0 <= k < items.len()
            && item_interface_name(items[k]) == Some(name),
    decreases items.len() - i0,
{
    if i0 < items.len() {
        lemma_find_interface_bounds(items, name, i0 + 1);
    }
}

/// The first definition of a name is no later than any definition of it.
proof fn lemma_find_type_le(items: Seq<IpcFileItem>, name: IdentView, i0: int, k: int)
    requires
        0 <= i0 <= k < items.len(),
        item_type_name(items[k]) == Some(name),
    ensures
        find_type_from(items, name, i0) matches Some(j) && j <= k,
    decreases k - i0,
{
    if i0 < k {
        lemma_find_type_le(items, name, i0 + 1, k);
    }
}

/// The first definition of an interface is no later than any definition of it.
proof fn lemma_find_interface_le(items: Seq<IpcFileItem>, name: IdentView, i0: int, k: int)
    requires
        0 <= i0 <= k < items.len(),
        item_interface_name(items[k]) == Some(name),
    ensures
        find_interface_from(items, name, i0) matches Some(j) && j <= k,
    decreases k - i0,
{
    if i0 < k {
        lemma_find_interface_le(items, name, i0 + 1, k);
    }
}

impl NominalType {
    fn typecheck_resolve_with_depth(&self, context: &TypecheckContext, depth_limit: usize) -> (r: Result<StructuralType, Vec<Diagnostic>>)
        ensures
            resolves_as(r, resolve_spec(context.items@, *self, depth_limit as nat)),
        decreases depth_limit,
    {
        match self {
            NominalType::Int(i) => Ok(StructuralType::Int(*i)),
            NominalType::Bool => Ok(StructuralType::Bool),
            NominalType::F32 => Ok(StructuralType::F32),
            NominalType::Bytes { size, alignment } => Ok(StructuralType::Bytes { size: *size, alignment: *alignment }),
            NominalType::Unknown { size } => Ok(StructuralType::Unknown { size: *size }),
            NominalType::TypeName { name, reference_location } => {
                proof {
                    lemma_find_type_bounds(context.items@, name@, 0);
                }
                let k = match context.resolve_type(name, reference_location) {
                    Ok(k) => k,
                    Err(e) => {
                        return Err(e);
                    },
                };
                match &context.items[k] {
                    IpcFileItem::TypeAlias(t) => {
                        if depth_limit == 0 {
                            let mut m2: Vec<u8> = Vec::new();
                            push_bytes(&mut m2, "Resolve recursion limit exceeded".as_bytes());
                            return Err(one_error(m2, t.location));
                        }
                        match t.referenced_type.typecheck_resolve_with_depth(context, depth_limit - 1) {
                            Ok(s) => Ok(s),
                            Err(e) => {
                                let c = quoted_ident_message("While resolving type named ", name);
                                let e = add_context(e, *reference_location, c.as_slice());
                                proof {
                                    let d = resolve_spec(context.items@, t.referenced_type, (depth_limit - 1) as nat)->Err_0;
                                    assert(in_context(seq![d], *reference_location, c@) =~= seq![
                                        with_label_spec(d, *reference_location, c@),
                                    ]);
                                }
                                Err(e)
                            },
                        }
                    },
                    IpcFileItem::StructDef(_) => Ok(StructuralType::Struct(k)),
                    IpcFileItem::EnumDef(_) => Ok(StructuralType::Enum(k)),
                    IpcFileItem::BitflagsDef(_) => Ok(StructuralType::Bitflags(k)),
                    IpcFileItem::InterfaceDef(_) => {
                        proof {
                            assert(false);
                        }
                        Ok(StructuralType::Bool)
                    },
                }
            },
        }
    }

    /// Resolve the type, following at most 16 type aliases.
    pub fn typecheck_resolve(&self, context: &TypecheckContext) -> (r: Result<StructuralType, Vec<Diagnostic>>)
        ensures
            resolves_as(r, resolve_spec(context.items@, *self, resolve_depth())),
    {
        self.typecheck_resolve_with_depth(context, 16)
    }
}

// ---------------------------------------------------------------------------
// Definitions

/// The diagnostics for a written type that does not resolve.
pub open spec fn nominal_diagnostics(items: Seq<IpcFileItem>, t: NominalType) -> Seq<DiagnosticView> {
    match resolve_spec(items, t, resolve_depth()) {
        Ok(_) => Seq::empty(),
        Err(d) => seq![d],
    }
}

/// The diagnostics for a structure field: a type that does not resolve, in
/// the context of the field, or a type without a known size.
pub open spec fn field_diagnostics(items: Seq<IpcFileItem>, f: StructField) -> Seq<DiagnosticView> {
    match resolve_spec(items, f.ty, resolve_depth()) {
        Ok(t) => if t.is_sized_spec() {
            Seq::empty()
        } else {
            seq![error_view("Use of unsized type in field ".spec_bytes() + quoted(f.name@), f.location)]
        },
        Err(d) => seq![with_label_spec(d, f.location, "In field ".spec_bytes() + quoted(f.name@))],
    }
}

impl StructField {
    /// Check that the field's type resolves to a type with a known size.
    pub fn typecheck(&self, context: &TypecheckContext) -> (r: Result<(), Vec<Diagnostic>>)
        ensures
            reports(r, field_diagnostics(context.items@, *self)),
    {
        match self.ty.typecheck_resolve(context) {
            Ok(t) => {
                if !t.is_sized() {
                    let m = quoted_message("Use of unsized type in field ", self.name.as_slice());
                    return Err(one_error(m, self.location));
                }
                Ok(())
            },
            Err(e) => {
                let c = quoted_message("In field ", self.name.as_slice());
                let e = add_context(e, self.location, c.as_slice());
                proof {
                    let d = resolve_spec(context.items@, self.ty, resolve_depth())->Err_0;
                    assert(in_context(seq![d], self.location, c@) =~= seq![with_label_spec(d, self.location, c@)]);
                }
                Err(e)
            },
        }
    }
}

/// The index of the first field named `name`, looking from `from` on; the
/// length when there is none.
pub open spec fn first_field_named(fields: Seq<StructField>, name: Seq<u8>, from: int) -> int
    decreases fields.len() - from,
{
    if from >= fields.len() || from < 0 {
        fields.len() as int
    } else if fields[from].name@ == name {
        from
    } else {
        first_field_named(fields, name, from + 1)
    }
}

proof fn lemma_first_field_named(fields: Seq<StructField>, name: Seq<u8>, from: int, j: int)
    requires
        0 <= from <= j < fields.len(),
        fields[j].name@ == name,
        forall|k: int| from <= k < j ==> (#[trigger] fields[k]).name@ != name,
    ensures
        first_field_named(fields, name, from) == j,
    decreases j - from,
{
    if from < j {
        lemma_first_field_named(fields, name, from + 1, j);
    }
}

/// The index of the first field with the same name as the `i`-th; `i`
/// itself when no earlier one has it.
pub open spec fn same_field_before(fields: Seq<StructField>, i: int) -> int {
    first_field_named(fields, fields[i].name@, 0)
}

/// The diagnostics for the first `n` fields of a structure.
pub open spec fn struct_diagnostics_upto(items: Seq<IpcFileItem>, s: Struct, n: int) -> Seq<DiagnosticView>
    decreases n,
{
    if n <= 0 {
        Seq::empty()
    } else {
        let fields = s.fields@;
        let p = same_field_before(fields, n - 1);
        struct_diagnostics_upto(items, s, n - 1) + (if p < n - 1 {
            seq![repeated_view(
                "Duplicate struct field ".spec_bytes() + quoted(fields[n - 1].name@),
                fields[n - 1].location,
                fields[p].location,
                "Previously defined here".spec_bytes(),
            )]
        } else {
            Seq::empty()
        }) + in_context(field_diagnostics(items, fields[n - 1]), s.location, "In struct ".spec_bytes() + quoted(
            ident_text(s.name@),
        ))
    }
}

/// The diagnostics for a structure: for each field in order, a repeated name
/// (pointing at its first use), then what its own check reports, in the
/// context of the structure.
pub open spec fn struct_diagnostics(items: Seq<IpcFileItem>, s: Struct) -> Seq<DiagnosticView> {
    struct_diagnostics_upto(items, s, s.fields@.len() as int)
}

/// The first field before the `i`-th with its name: its index, `i` if none.
fn find_same_field(fields: &Vec<StructField>, i: usize) -> (r: usize)
    requires
        i < fields@.len(),
    ensures
        r as int == same_field_before(fields@, i as int),
        r <= i,
{
    let mut j: usize = 0;
    while j < i && !bytes_eq(fields[j].name.as_slice(), fields[i].name.as_slice())
        invariant
            j <= i < fields@.len(),
            forall|k: int| 0 <= k < j ==> (#[trigger] fields@[k]).name@ != fields@[i as int].name@,
        decreases i - j,
    {
        j = j + 1;
    }
    proof {
        lemma_first_field_named(fields@, fields@[i as int].name@, 0, j as int);
    }
    j
}

impl Struct {
    pub fn typecheck(&self, context: &TypecheckContext) -> (r: Result<(), Vec<Diagnostic>>)
        ensures
            reports(r, struct_diagnostics(context.items@, *self)),
    {
        let mut res: Vec<Diagnostic> = Vec::new();
        let mut i: usize = 0;
        while i < self.fields.len()
            invariant
                i <= self.fields@.len(),
                views(res@) == struct_diagnostics_upto(context.items@, *self, i as int),
                all_errors(res@),
            decreases self.fields@.len() - i,
        {
            let field = &self.fields[i];
            let p = find_same_field(&self.fields, i);
            let ghost before = views(res@);
            if p < i {
                let m = quoted_message("Duplicate struct field ", field.name.as_slice());
                let ghost dm = seq![repeated_view(m@, field.location, self.fields@[p as int].location, "Previously defined here".spec_bytes())];
                extend_result(
                    &mut res,
                    Err(repeated_error(m, field.location, self.fields[p].location, "Previously defined here".as_bytes())),
                    Ghost(dm),
                );
            } else {
                assert(views(res@) + Seq::<DiagnosticView>::empty() =~= views(res@));
            }
            let c = quoted_ident_message("In struct ", &self.name);
            let fr = match field.typecheck(context) {
                Ok(u) => Ok(u),
                Err(e) => Err(add_context(e, self.location, c.as_slice())),
            };
            extend_result(&mut res, fr, Ghost(in_context(field_diagnostics(context.items@, *field), self.location, c@)));
            i = i + 1;
            proof {
                let n = i as int;
                assert(self.fields@[n - 1] == *field);
                assert(struct_diagnostics_upto(context.items@, *self, n) =~= views(res@));
            }
        }
        finish(res, Ghost(struct_diagnostics(context.items@, *self)))
    }
}

/// The message for an arm whose value does not fit the base type; `kind` is
/// `enum` or `bitflags`.
pub open spec fn overflow_message(kind: Seq<u8>, value: u64, name: Seq<u8>, base: IntType) -> Seq<u8> {
    "Value ".spec_bytes() + decimal(value as nat) + " of ".spec_bytes() + kind + " arm ".spec_bytes()
        + quoted(name) + " does not fit into type ".spec_bytes() + base.debug_name()
}

fn build_overflow_message(kind: &str, value: u64, name: &[u8], base: IntType) -> (r: Vec<u8>)
    ensures
        r@ == overflow_message(kind.spec_bytes(), value, name@, base),
{
    let mut m: Vec<u8> = Vec::new();
    push_bytes(&mut m, "Value ".as_bytes());
    push_decimal(&mut m, value);
    push_bytes(&mut m, " of ".as_bytes());
    push_bytes(&mut m, kind.as_bytes());
    push_bytes(&mut m, " arm ".as_bytes());
    push_bytes(&mut m, "`".as_bytes());
    push_bytes(&mut m, name);
    push_bytes(&mut m, "`".as_bytes());
    push_bytes(&mut m, " does not fit into type ".as_bytes());
    base.write_debug_name(&mut m);
    assert(m@ =~= overflow_message(kind.spec_bytes(), value, name@, base));
    m
}

/// The diagnostics for an enum arm.
pub open spec fn enum_arm_diagnostics(arm: EnumArm, base_type: IntType) -> Seq<DiagnosticView> {
    if arm.value <= base_type.max_spec() {
        Seq::empty()
    } else {
        seq![error_view(overflow_message("enum".spec_bytes(), arm.value, arm.name@, base_type), arm.location)]
    }
}

impl EnumArm {
    /// Check that the arm's value fits the base type.
    pub fn typecheck(&self, _context: &TypecheckContext, base_type: IntType) -> (r: Result<(), Vec<Diagnostic>>)
        ensures
            reports(r, enum_arm_diagnostics(*self, base_type)),
    {
        if !base_type.fits_u64(self.value) {
            let m = build_overflow_message("enum", self.value, self.name.as_slice(), base_type);
            return Err(one_error(m, self.location));
        }
        Ok(())
    }
}

/// The index of the first arm with value `v`, looking from `from` on; the
/// length when there is none.
pub open spec fn first_arm_valued(arms: Seq<EnumArm>, v: u64, from: int) -> int
    decreases arms.len() - from,
{
    if from >= arms.len() || from < 0 {
        arms.len() as int
    } else if arms[from].value == v {
        from
    } else {
        first_arm_valued(arms, v, from + 1)
    }
}

/// The index of the first arm named `name`, looking from `from` on; the
/// length when there is none.
pub open spec fn first_arm_named(arms: Seq<EnumArm>, name: Seq<u8>, from: int) -> int
    decreases arms.len() - from,
{
    if from >= arms.len() || from < 0 {
        arms.len() as int
    } else if arms[from].name@ == name {
        from
    } else {
        first_arm_named(arms, name, from + 1)
    }
}

proof fn lemma_first_arm_valued(arms: Seq<EnumArm>, v: u64, from: int, j: int)
    requires
        0 <= from <= j < arms.len(),
        arms[j].value == v,
        forall|k: int| from <= k < j ==> (#[trigger] arms[k]).value != v,
    ensures
        first_arm_valued(arms, v, from) == j,
    decreases j - from,
{
    if from < j {
        lemma_first_arm_valued(arms, v, from + 1, j);
    }
}

proof fn lemma_first_arm_named(arms: Seq<EnumArm>, name: Seq<u8>, from: int, j: int)
    requires
        0 <= from <= j < arms.len(),
        arms[j].name@ == name,
        forall|k: int| from <= k < j ==> (#[trigger] arms[k]).name@ != name,
    ensures
        first_arm_named(arms, name, from) == j,
    decreases j - from,
{
    if from < j {
        lemma_first_arm_named(arms, name, from + 1, j);
    }
}

/// The first arm with the value of the `i`-th; `i` itself if none before.
fn find_same_value(arms: &Vec<EnumArm>, i: usize) -> (r: usize)
    requires
        i < arms@.len(),
    ensures
        r as int == first_arm_valued(arms@, arms@[i as int].value, 0),
        r <= i,
{
    let mut j: usize = 0;
    while j < i && arms[j].value != arms[i].value
        invariant
            j <= i < arms@.len(),
            forall|k: int| 0 <= k < j ==> (#[trigger] arms@[k]).value != arms@[i as int].value,
        decreases i - j,
    {
        j = j + 1;
    }
    proof {
        lemma_first_arm_valued(arms@, arms@[i as int].value, 0, j as int);
    }
    j
}

/// The first arm with the name of the `i`-th; `i` itself if none before.
fn find_same_arm_name(arms: &Vec<EnumArm>, i: usize) -> (r: usize)
    requires
        i < arms@.len(),
    ensures
        r as int == first_arm_named(arms@, arms@[i as int].name@, 0),
        r <= i,
{
    let mut j: usize = 0;
    while j < i && !bytes_eq(arms[j].name.as_slice(), arms[i].name.as_slice())
        invariant
            j <= i < arms@.len(),
            forall|k: int| 0 <= k < j ==> (#[trigger] arms@[k]).name@ != arms@[i as int].name@,
        decreases i - j,
    {
        j = j + 1;
    }
    proof {
        lemma_first_arm_named(arms@, arms@[i as int].name@, 0, j as int);
    }
    j
}

/// The diagnostics for the first `n` arms of an enum.
pub open spec fn enum_diagnostics_upto(e: Enum, n: int) -> Seq<DiagnosticView>
    decreases n,
{
    if n <= 0 {
        Seq::empty()
    } else {
        let arms = e.arms@;
        let pv = first_arm_valued(arms, arms[n - 1].value, 0);
        let pn = first_arm_named(arms, arms[n - 1].name@, 0);
        enum_diagnostics_upto(e, n - 1) + in_context(
            enum_arm_diagnostics(arms[n - 1], e.base_type),
            e.location,
            "In enum ".spec_bytes() + quoted(ident_text(e.name@)),
        ) + (if pv < n - 1 {
            seq![repeated_view("Duplicate enum value".spec_bytes(), arms[n - 1].location, arms[pv].location, "Previously defined here".spec_bytes())]
        } else {
            Seq::empty()
        }) + (if pn < n - 1 {
            seq![repeated_view(
                "Duplicate enum arm named ".spec_bytes() + quoted(arms[n - 1].name@),
                arms[n - 1].location,
                arms[pn].location,
                "Previously defined here".spec_bytes(),
            )]
        } else {
            Seq::empty()
        })
    }
}

/// The diagnostics for an enum: for each arm in order, a value that does not
/// fit (in the context of the enum), a repeated value and a repeated name
/// (pointing at their first use).
pub open spec fn enum_diagnostics(e: Enum) -> Seq<DiagnosticView> {
    enum_diagnostics_upto(e, e.arms@.len() as int)
}

impl Enum {
    pub fn typecheck(&self, context: &TypecheckContext) -> (r: Result<(), Vec<Diagnostic>>)
        ensures
            reports(r, enum_diagnostics(*self)),
    {
        let mut res: Vec<Diagnostic> = Vec::new();
        let c = quoted_ident_message("In enum ", &self.name);
        let mut i: usize = 0;
        while i < self.arms.len()
            invariant
                i <= self.arms@.len(),
                c@ == "In enum ".spec_bytes() + quoted(ident_text(self.name@)),
                views(res@) == enum_diagnostics_upto(*self, i as int),
                all_errors(res@),
            decreases self.arms@.len() - i,
        {
            let arm = &self.arms[i];
            let ar = match arm.typecheck(context, self.base_type) {
                Ok(u) => Ok(u),
                Err(e) => Err(add_context(e, self.location, c.as_slice())),
            };
            extend_result(&mut res, ar, Ghost(in_context(enum_arm_diagnostics(*arm, self.base_type), self.location, c@)));
            let pv = find_same_value(&self.arms, i);
            if pv < i {
                let mut m: Vec<u8> = Vec::new();
                push_bytes(&mut m, "Duplicate enum value".as_bytes());
                let ghost dm = seq![repeated_view(m@, arm.location, self.arms@[pv as int].location, "Previously defined here".spec_bytes())];
                extend_result(
                    &mut res,
                    Err(repeated_error(m, arm.location, self.arms[pv].location, "Previously defined here".as_bytes())),
                    Ghost(dm),
                );
            } else {
                assert(views(res@) + Seq::<DiagnosticView>::empty() =~= views(res@));
            }
            let pn = find_same_arm_name(&self.arms, i);
            if pn < i {
                let m = quoted_message("Duplicate enum arm named ", arm.name.as_slice());
                let ghost dm = seq![repeated_view(m@, arm.location, self.arms@[pn as int].location, "Previously defined here".spec_bytes())];
                extend_result(
                    &mut res,
                    Err(repeated_error(m, arm.location, self.arms[pn].location, "Previously defined here".as_bytes())),
                    Ghost(dm),
                );
            } else {
                assert(views(res@) + Seq::<DiagnosticView>::empty() =~= views(res@));
            }
            i = i + 1;
            proof {
                let n = i as int;
                assert(self.arms@[n - 1] == *arm);
                assert(enum_diagnostics_upto(*self, n) =~= views(res@));
            }
        }
        finish(res, Ghost(enum_diagnostics(*self)))
    }
}

/// The diagnostics for a bitflags arm.
pub open spec fn bitflags_arm_diagnostics(arm: BitflagsArm, base_type: IntType) -> Seq<DiagnosticView> {
    if arm.value <= base_type.max_spec() {
        Seq::empty()
    } else {
        seq![error_view(overflow_message("bitflags".spec_bytes(), arm.value, arm.name@, base_type), arm.location)]
    }
}

impl BitflagsArm {
    /// Check that the arm's value fits the base type.
    pub fn typecheck(&self, _context: &TypecheckContext, base_type: IntType) -> (r: Result<(), Vec<Diagnostic>>)
        ensures
            reports(r, bitflags_arm_diagnostics(*self, base_type)),
    {
        if !base_type.fits_u64(self.value) {
            let m = build_overflow_message("bitflags", self.value, self.name.as_slice(), base_type);
            return Err(one_error(m, self.location));
        }
        Ok(())
    }
}

/// The index of the first bitflags arm named `name`, looking from `from` on;
/// the length when there is none.
pub open spec fn first_flag_named(arms: Seq<BitflagsArm>, name: Seq<u8>, from: int) -> int
    decreases arms.len() - from,
{
    if from >= arms.len() || from < 0 {
        arms.len() as int
    } else if arms[from].name@ == name {
        from
    } else {
        first_flag_named(arms, name, from + 1)
    }
}

proof fn lemma_first_flag_named(arms: Seq<BitflagsArm>, name: Seq<u8>, from: int, j: int)
    requires
        0 <= from <= j < arms.len(),
        arms[j].name@ == name,
        forall|k: int| from <= k < j ==> (#[trigger] arms[k]).name@ != name,
    ensures
        first_flag_named(arms, name, from) == j,
    decreases j - from,
{
    if from < j {
        lemma_first_flag_named(arms, name, from + 1, j);
    }
}

/// The first bitflags arm with the name of the `i`-th; `i` if none before.
fn find_same_flag_name(arms: &Vec<BitflagsArm>, i: usize) -> (r: usize)
    requires
        i < arms@.len(),
    ensures
        r as int == first_flag_named(arms@, arms@[i as int].name@, 0),
        r <= i,
{
    let mut j: usize = 0;
    while j < i && !bytes_eq(arms[j].name.as_slice(), arms[i].name.as_slice())
        invariant
            j <= i < arms@.len(),
            forall|k: int| 0 <= k < j ==> (#[trigger] arms@[k]).name@ != arms@[i as int].name@,
        decreases i - j,
    {
        j = j + 1;
    }
    proof {
        lemma_first_flag_named(arms@, arms@[i as int].name@, 0, j as int);
    }
    j
}

/// The diagnostics for the first `n` arms of a bitflags definition.
pub open spec fn bitflags_diagnostics_upto(b: Bitflags, n: int) -> Seq<DiagnosticView>
    decreases n,
{
    if n <= 0 {
        Seq::empty()
    } else {
        let arms = b.arms@;
        let pn = first_flag_named(arms, arms[n - 1].name@, 0);
        bitflags_diagnostics_upto(b, n - 1) + in_context(
            bitflags_arm_diagnostics(arms[n - 1], b.base_type),
            b.location,
            "In bitflags ".spec_bytes() + quoted(ident_text(b.name@)),
        ) + (if pn < n - 1 {
            seq![repeated_view(
                "Duplicate bitfield arm named ".spec_bytes() + quoted(arms[n - 1].name@),
                arms[n - 1].location,
                arms[pn].location,
                "Previously defined here".spec_bytes(),
            )]
        } else {
            Seq::empty()
        })
    }
}

/// The diagnostics for a bitflags definition: for each arm in order, a value
/// that does not fit (in the context of the definition) and a repeated name
/// (pointing at its first use).
pub open spec fn bitflags_diagnostics(b: Bitflags) -> Seq<DiagnosticView> {
    bitflags_diagnostics_upto(b, b.arms@.len() as int)
}

impl Bitflags {
    pub fn typecheck(&self, context: &TypecheckContext) -> (r: Result<(), Vec<Diagnostic>>)
        ensures
            reports(r, bitflags_diagnostics(*self)),
    {
        let mut res: Vec<Diagnostic> = Vec::new();
        let c = quoted_ident_message("In bitflags ", &self.name);
        let mut i: usize = 0;
        while i < self.arms.len()
            invariant
                i <= self.arms@.len(),
                c@ == "In bitflags ".spec_bytes() + quoted(ident_text(self.name@)),
                views(res@) == bitflags_diagnostics_upto(*self, i as int),
                all_errors(res@),
            decreases self.arms@.len() - i,
        {
            let arm = &self.arms[i];
            let ar = match arm.typecheck(context, self.base_type) {
                Ok(u) => Ok(u),
                Err(e) => Err(add_context(e, self.location, c.as_slice())),
            };
            extend_result(&mut res, ar, Ghost(in_context(bitflags_arm_diagnostics(*arm, self.base_type), self.location, c@)));
            let pn = find_same_flag_name(&self.arms, i);
            if pn < i {
                let m = quoted_message("Duplicate bitfield arm named ", arm.name.as_slice());
                let ghost dm = seq![repeated_view(m@, arm.location, self.arms@[pn as int].location, "Previously defined here".spec_bytes())];
                extend_result(
                    &mut res,
                    Err(repeated_error(m, arm.location, self.arms[pn].location, "Previously defined here".as_bytes())),
                    Ghost(dm),
                );
            } else {
                assert(views(res@) + Seq::<DiagnosticView>::empty() =~= views(res@));
            }
            i = i + 1;
            proof {
                let n = i as int;
                assert(self.arms@[n - 1] == *arm);
                assert(bitflags_diagnostics_upto(*self, n) =~= views(res@));
            }
        }
        finish(res, Ghost(bitflags_diagnostics(*self)))
    }
}

/// The diagnostics for an interface name, used at `location`, that nothing
/// defines.
pub open spec fn interface_ref_diagnostics(items: Seq<IpcFileItem>, name: IdentView, location: Span) -> Seq<DiagnosticView> {
    if find_interface(items, name) is Some {
        Seq::empty()
    } else {
        seq![error_view(unresolved_interface_message(name), location)]
    }
}

/// The diagnostics for a command argument: its types and interfaces must
/// resolve.
pub open spec fn value_diagnostics(items: Seq<IpcFileItem>, v: ArgValue) -> Seq<DiagnosticView> {
    match v {
        ArgValue::In(t) => nominal_diagnostics(items, t),
        ArgValue::Out(t) => nominal_diagnostics(items, t),
        ArgValue::InArray(t, _) => nominal_diagnostics(items, t),
        ArgValue::OutArray(t, _) => nominal_diagnostics(items, t),
        ArgValue::InObject(n, location) => interface_ref_diagnostics(items, n@, location),
        ArgValue::OutObject(Some(n), location) => interface_ref_diagnostics(items, n@, location),
        _ => Seq::empty(),
    }
}

fn check_nominal(t: &NominalType, context: &TypecheckContext) -> (r: Result<(), Vec<Diagnostic>>)
    ensures
        reports(r, nominal_diagnostics(context.items@, *t)),
{
    match t.typecheck_resolve(context) {
        Ok(_) => Ok(()),
        Err(e) => Err(e),
    }
}

fn check_interface_ref(n: &NamespacedIdent, location: &Span, context: &TypecheckContext) -> (r: Result<(), Vec<Diagnostic>>)
    ensures
        reports(r, interface_ref_diagnostics(context.items@, n@, *location)),
{
    match context.resolve_interface(n, location) {
        Ok(_) => Ok(()),
        Err(e) => Err(e),
    }
}

impl ArgValue {
    pub fn typecheck(&self, context: &TypecheckContext) -> (r: Result<(), Vec<Diagnostic>>)
        ensures
            reports(r, value_diagnostics(context.items@, *self)),
    {
        match self {
            ArgValue::In(t) => check_nominal(t, context),
            ArgValue::Out(t) => check_nominal(t, context),
            ArgValue::InArray(t, _) => check_nominal(t, context),
            ArgValue::OutArray(t, _) => check_nominal(t, context),
            ArgValue::InObject(n, location) => check_interface_ref(n, location, context),
            ArgValue::OutObject(Some(n), location) => check_interface_ref(n, location, context),
            _ => Ok(()),
        }
    }
}

/// The diagnostics for the first `n` arguments of a command.
pub open spec fn command_diagnostics_upto(items: Seq<IpcFileItem>, c: Command, n: int) -> Seq<DiagnosticView>
    decreases n,
{
    if n <= 0 {
        Seq::empty()
    } else {
        command_diagnostics_upto(items, c, n - 1) + in_context(
            value_diagnostics(items, c.arguments@[n - 1].1),
            c.location,
            "In command ".spec_bytes() + quoted(c.name@),
        )
    }
}

/// The diagnostics for a command: those of its arguments, in order, each in
/// the context of the command.
pub open spec fn command_diagnostics(items: Seq<IpcFileItem>, c: Command) -> Seq<DiagnosticView> {
    command_diagnostics_upto(items, c, c.arguments@.len() as int)
}

impl Command {
    pub fn typecheck(&self, context: &TypecheckContext) -> (r: Result<(), Vec<Diagnostic>>)
        ensures
            reports(r, command_diagnostics(context.items@, *self)),
    {
        let mut res: Vec<Diagnostic> = Vec::new();
        let c = quoted_message("In command ", self.name.as_slice());
        let mut i: usize = 0;
        while i < self.arguments.len()
            invariant
                i <= self.arguments@.len(),
                c@ == "In command ".spec_bytes() + quoted(self.name@),
                views(res@) == command_diagnostics_upto(context.items@, *self, i as int),
                all_errors(res@),
            decreases self.arguments@.len() - i,
        {
            let ar = match self.arguments[i].1.typecheck(context) {
                Ok(u) => Ok(u),
                Err(e) => Err(add_context(e, self.location, c.as_slice())),
            };
            extend_result(
                &mut res,
                ar,
                Ghost(in_context(value_diagnostics(context.items@, self.arguments@[i as int].1), self.location, c@)),
            );
            i = i + 1;
        }
        finish(res, Ghost(command_diagnostics(context.items@, *self)))
    }
}

/// The index of the first command named `name`, looking from `from` on; the
/// length when there is none.
pub open spec fn first_command_named(cmds: Seq<Command>, name: Seq<u8>, from: int) -> int
    decreases cmds.len() - from,
{
    if from >= cmds.len() || from < 0 {
        cmds.len() as int
    } else if cmds[from].name@ == name {
        from
    } else {
        first_command_named(cmds, name, from + 1)
    }
}

/// The index of the first command with id `id`, looking from `from` on; the
/// length when there is none.
pub open spec fn first_command_with_id(cmds: Seq<Command>, id: u32, from: int) -> int
    decreases cmds.len() - from,
{
    if from >= cmds.len() || from < 0 {
        cmds.len() as int
    } else if cmds[from].id == id {
        from
    } else {
        first_command_with_id(cmds, id, from + 1)
    }
}

proof fn lemma_first_command_named(cmds: Seq<Command>, name: Seq<u8>, from: int, j: int)
    requires
        0 <= from <= j < cmds.len(),
        cmds[j].name@ == name,
        forall|k: int| from <= k < j ==> (#[trigger] cmds[k]).name@ != name,
    ensures
        first_command_named(cmds, name, from) == j,
    decreases j - from,
{
    if from < j {
        lemma_first_command_named(cmds, name, from + 1, j);
    }
}

proof fn lemma_first_command_with_id(cmds: Seq<Command>, id: u32, from: int, j: int)
    requires
        0 <= from <= j < cmds.len(),
        cmds[j].id == id,
        forall|k: int| from <= k < j ==> (#[trigger] cmds[k]).id != id,
    ensures
        first_command_with_id(cmds, id, from) == j,
    decreases j - from,
{
    if from < j {
        lemma_first_command_with_id(cmds, id, from + 1, j);
    }
}

/// The first command with the name of the `i`-th; `i` if none before.
fn find_same_command_name(cmds: &Vec<Command>, i: usize) -> (r: usize)
    requires
        i < cmds@.len(),
    ensures
        r as int == first_command_named(cmds@, cmds@[i as int].name@, 0),
        r <= i,
{
    let mut j: usize = 0;
    while j < i && !bytes_eq(cmds[j].name.as_slice(), cmds[i].name.as_slice())
        invariant
            j <= i < cmds@.len(),
            forall|k: int| 0 <= k < j ==> (#[trigger] cmds@[k]).name@ != cmds@[i as int].name@,
        decreases i - j,
    {
        j = j + 1;
    }
    proof {
        lemma_first_command_named(cmds@, cmds@[i as int].name@, 0, j as int);
    }
    j
}

/// The first command with the id of the `i`-th; `i` if none before.
fn find_same_command_id(cmds: &Vec<Command>, i: usize) -> (r: usize)
    requires
        i < cmds@.len(),
    ensures
        r as int == first_command_with_id(cmds@, cmds@[i as int].id, 0),
        r <= i,
{
    let mut j: usize = 0;
    while j < i && cmds[j].id != cmds[i].id
        invariant
            j <= i < cmds@.len(),
            forall|k: int| 0 <= k < j ==> (#[trigger] cmds@[k]).id != cmds@[i as int].id,
        decreases i - j,
    {
        j = j + 1;
    }
    proof {
        lemma_first_command_with_id(cmds@, cmds@[i as int].id, 0, j as int);
    }
    j
}

/// An error about a repeated command: a primary label at the command, a
/// secondary one at the previous definition, and one naming the interface.
pub open spec fn repeated_command_view(message: Seq<u8>, at: Span, previous: Span, i: Interface) -> DiagnosticView {
    with_label_spec(
        repeated_view(message, at, previous, "Previous definition here".spec_bytes()),
        i.location,
        "In interface ".spec_bytes() + quoted(ident_text(i.name@)),
    )
}

/// The diagnostics for the first `n` commands of an interface.
pub open spec fn interface_diagnostics_upto(items: Seq<IpcFileItem>, i: Interface, n: int) -> Seq<DiagnosticView>
    decreases n,
{
    if n <= 0 {
        Seq::empty()
    } else {
        let cmds = i.commands@;
        let pn = first_command_named(cmds, cmds[n - 1].name@, 0);
        let pi = first_command_with_id(cmds, cmds[n - 1].id, 0);
        interface_diagnostics_upto(items, i, n - 1) + in_context(
            command_diagnostics(items, cmds[n - 1]),
            i.location,
            "In interface ".spec_bytes() + quoted(ident_text(i.name@)),
        ) + (if pn < n - 1 {
            seq![repeated_command_view(
                "Duplicate command named ".spec_bytes() + quoted(cmds[n - 1].name@),
                cmds[n - 1].location,
                cmds[pn].location,
                i,
            )]
        } else {
            Seq::empty()
        }) + (if pi < n - 1 {
            seq![repeated_command_view(
                "Duplicate command with id ".spec_bytes() + quoted(decimal(cmds[n - 1].id as nat)),
                cmds[n - 1].location,
                cmds[pi].location,
                i,
            )]
        } else {
            Seq::empty()
        })
    }
}

/// The diagnostics for an interface: for each command in order, those of its
/// arguments (in the context of the interface), a repeated name and a
/// repeated id (pointing at their first use and naming the interface).
pub open spec fn interface_diagnostics(items: Seq<IpcFileItem>, i: Interface) -> Seq<DiagnosticView> {
    interface_diagnostics_upto(items, i, i.commands@.len() as int)
}

/// A list holding one error about a repeated command.
fn repeated_command_error(message: Vec<u8>, at: Span, previous: Span, context: &[u8], i: &Interface) -> (r: Vec<Diagnostic>)
    requires
        context@ == "In interface ".spec_bytes() + quoted(ident_text(i.name@)),
    ensures
        views(r@) == seq![repeated_command_view(message@, at, previous, *i)],
        all_errors(r@),
{
    let ghost m = message@;
    let mut d = error_at(message, at);
    assert(d@ == error_view(m, at));
    with_secondary_label(&mut d, previous, "Previous definition here".as_bytes());
    with_secondary_label(&mut d, i.location, context);
    let mut r: Vec<Diagnostic> = Vec::new();
    r.push(d);
    proof {
        assert(views(r@) =~= seq![repeated_command_view(m, at, previous, *i)]);
    }
    r
}

impl Interface {
    pub fn typecheck(&self, context: &TypecheckContext) -> (r: Result<(), Vec<Diagnostic>>)
        ensures
            reports(r, interface_diagnostics(context.items@, *self)),
    {
        let mut res: Vec<Diagnostic> = Vec::new();
        let c = quoted_ident_message("In interface ", &self.name);
        let mut i: usize = 0;
        while i < self.commands.len()
            invariant
                i <= self.commands@.len(),
                c@ == "In interface ".spec_bytes() + quoted(ident_text(self.name@)),
                views(res@) == interface_diagnostics_upto(context.items@, *self, i as int),
                all_errors(res@),
            decreases self.commands@.len() - i,
        {
            let command = &self.commands[i];
            let cr = match command.typecheck(context) {
                Ok(u) => Ok(u),
                Err(e) => Err(add_context(e, self.location, c.as_slice())),
            };
            extend_result(&mut res, cr, Ghost(in_context(command_diagnostics(context.items@, *command), self.location, c@)));
            let pn = find_same_command_name(&self.commands, i);
            if pn < i {
                let m = quoted_message("Duplicate command named ", command.name.as_slice());
                let ghost dm = seq![repeated_command_view(m@, command.location, self.commands@[pn as int].location, *self)];
                extend_result(
                    &mut res,
                    Err(repeated_command_error(m, command.location, self.commands[pn].location, c.as_slice(), self)),
                    Ghost(dm),
                );
            } else {
                assert(views(res@) + Seq::<DiagnosticView>::empty() =~= views(res@));
            }
            let pi = find_same_command_id(&self.commands, i);
            if pi < i {
                let mut digits: Vec<u8> = Vec::new();
                push_decimal(&mut digits, command.id as u64);
                let m = quoted_message("Duplicate command with id ", digits.as_slice());
                let ghost dm = seq![repeated_command_view(m@, command.location, self.commands@[pi as int].location, *self)];
                extend_result(
                    &mut res,
                    Err(repeated_command_error(m, command.location, self.commands[pi].location, c.as_slice(), self)),
                    Ghost(dm),
                );
            } else {
                assert(views(res@) + Seq::<DiagnosticView>::empty() =~= views(res@));
            }
            i = i + 1;
            proof {
                let n = i as int;
                assert(self.commands@[n - 1] == *command);
                assert(interface_diagnostics_upto(context.items@, *self, n) =~= views(res@));
            }
        }
        finish(res, Ghost(interface_diagnostics(context.items@, *self)))
    }
}

// ---------------------------------------------------------------------------
// Files

/// Whether an earlier item defines a type of the same name as item `k`.
pub open spec fn type_defined_before(items: Seq<IpcFileItem>, k: int) -> bool {
    exists|j: int| 0 <= j < k && item_type_name(#[trigger] items[j]) == item_type_name(items[k])
}

/// Whether an earlier item defines an interface of the same name as item `k`.
pub open spec fn interface_defined_before(items: Seq<IpcFileItem>, k: int) -> bool {
    exists|j: int| 0 <= j < k && item_interface_name(#[trigger] items[j]) == item_interface_name(items[k])
}

/// Item `k` is the first definition of a type.
pub open spec fn first_type_def(items: Seq<IpcFileItem>, k: int) -> bool {
    item_type_name(items[k]) is Some && !type_defined_before(items, k)
}

/// Item `k` is the first definition of an interface.
pub open spec fn first_interface_def(items: Seq<IpcFileItem>, k: int) -> bool {
    item_interface_name(items[k]) is Some && !interface_defined_before(items, k)
}

/// Where an item is defined.
pub open spec fn location_of(it: IpcFileItem) -> Span {
    match it {
        IpcFileItem::TypeAlias(a) => a.location,
        IpcFileItem::StructDef(s) => s.location,
        IpcFileItem::EnumDef(e) => e.location,
        IpcFileItem::BitflagsDef(b) => b.location,
        IpcFileItem::InterfaceDef(i) => i.location,
    }
}

/// The diagnostic for item `k` when it repeats the name of an earlier
/// definition, pointing at the first one.
pub open spec fn duplicate_at(items: Seq<IpcFileItem>, k: int) -> Seq<DiagnosticView> {
    match item_type_name(items[k]) {
        Some(name) => match find_type(items, name) {
            Some(j) => if j < k {
                seq![repeated_view(
                    "Multiple definitions of type ".spec_bytes() + quoted(ident_text(name)),
                    location_of(items[k]),
                    location_of(items[j]),
                    "Previous definition of type ".spec_bytes() + quoted(ident_text(name)),
                )]
            } else {
                Seq::empty()
            },
            None => Seq::empty(),
        },
        None => match item_interface_name(items[k]) {
            Some(name) => match find_interface(items, name) {
                Some(j) => if j < k {
                    seq![repeated_view(
                        "Multiple definitions of interface ".spec_bytes() + quoted(ident_text(name)),
                        location_of(items[k]),
                        location_of(items[j]),
                        "Previous definition of interface ".spec_bytes() + quoted(ident_text(name)),
                    )]
                } else {
                    Seq::empty()
                },
                None => Seq::empty(),
            },
            None => Seq::empty(),
        },
    }
}

/// The diagnostics for repeated definitions among the first `n` items.
pub open spec fn duplicate_diagnostics_upto(items: Seq<IpcFileItem>, n: int) -> Seq<DiagnosticView>
    decreases n,
{
    if n <= 0 {
        Seq::empty()
    } else {
        duplicate_diagnostics_upto(items, n - 1) + duplicate_at(items, n - 1)
    }
}

/// The diagnostics for one definition.
pub open spec fn item_diagnostics(items: Seq<IpcFileItem>, it: IpcFileItem) -> Seq<DiagnosticView> {
    match it {
        IpcFileItem::TypeAlias(a) => nominal_diagnostics(items, a.referenced_type),
        IpcFileItem::StructDef(s) => struct_diagnostics(items, s),
        IpcFileItem::EnumDef(e) => enum_diagnostics(e),
        IpcFileItem::BitflagsDef(b) => bitflags_diagnostics(b),
        IpcFileItem::InterfaceDef(i) => interface_diagnostics(items, i),
    }
}

/// The name that an item defines: a type's name when `is_type`, an
/// interface's otherwise.
pub open spec fn def_name(it: IpcFileItem, is_type: bool) -> Option<IdentView> {
    if is_type {
        item_type_name(it)
    } else {
        item_interface_name(it)
    }
}

/// Item `k` is the first definition of a type (when `is_type`) or of an
/// interface.
pub open spec fn first_def(items: Seq<IpcFileItem>, k: int, is_type: bool) -> bool {
    if is_type {
        first_type_def(items, k)
    } else {
        first_interface_def(items, k)
    }
}

/// `order` with `k` put before the first entry whose name comes after the
/// name of `k`.
pub open spec fn insert_by_name(items: Seq<IpcFileItem>, order: Seq<int>, k: int, is_type: bool) -> Seq<int>
    decreases order.len(),
{
    if order.len() == 0 {
        seq![k]
    } else if ident_lt(def_name(items[k], is_type)->0, def_name(items[order[0]], is_type)->0) {
        seq![k] + order
    } else {
        seq![order[0]] + insert_by_name(items, order.drop_first(), k, is_type)
    }
}

/// The first definitions of types (when `is_type`) or of interfaces among the
/// first `n` items, in the order of their names.
pub open spec fn def_order(items: Seq<IpcFileItem>, n: int, is_type: bool) -> Seq<int>
    decreases n,
{
    if n <= 0 {
        Seq::empty()
    } else if first_def(items, n - 1, is_type) {
        insert_by_name(items, def_order(items, n - 1, is_type), n - 1, is_type)
    } else {
        def_order(items, n - 1, is_type)
    }
}

/// The diagnostics for the definitions at the indices of `order`, in that
/// order.
pub open spec fn diagnostics_in(items: Seq<IpcFileItem>, order: Seq<int>) -> Seq<DiagnosticView>
    decreases order.len(),
{
    if order.len() == 0 {
        Seq::empty()
    } else {
        diagnostics_in(items, order.drop_last()) + item_diagnostics(items, items[order.last()])
    }
}

/// All diagnostics for a file: repeated definitions in file order, then the
/// checks of the types, then those of the interfaces, each in the order of
/// their names.
pub open spec fn file_diagnostics(items: Seq<IpcFileItem>) -> Seq<DiagnosticView> {
    duplicate_diagnostics_upto(items, items.len() as int) + diagnostics_in(items, def_order(items, items.len() as int, true))
        + diagnostics_in(items, def_order(items, items.len() as int, false))
}

/// What a type definition resolves to, when it checks without errors.
pub open spec fn item_resolution(items: Seq<IpcFileItem>, k: int) -> Option<StructuralType> {
    match items[k] {
        IpcFileItem::TypeAlias(a) => match resolve_spec(items, a.referenced_type, resolve_depth()) {
            Ok(t) => Some(t),
            Err(_) => None,
        },
        IpcFileItem::StructDef(s) => if struct_diagnostics(items, s).len() == 0 {
            Some(StructuralType::Struct(k as usize))
        } else {
            None
        },
        IpcFileItem::EnumDef(e) => if enum_diagnostics(e).len() == 0 {
            Some(StructuralType::Enum(k as usize))
        } else {
            None
        },
        IpcFileItem::BitflagsDef(b) => if bitflags_diagnostics(b).len() == 0 {
            Some(StructuralType::Bitflags(k as usize))
        } else {
            None
        },
        IpcFileItem::InterfaceDef(_) => None,
    }
}

/// The resolved types of the type definitions at the indices of `order`, as
/// pairs of item index and type, leaving out those that do not check.
pub open spec fn resolved_in(items: Seq<IpcFileItem>, order: Seq<int>) -> Seq<(usize, StructuralType)>
    decreases order.len(),
{
    if order.len() == 0 {
        Seq::empty()
    } else {
        resolved_in(items, order.drop_last()) + match item_resolution(items, order.last()) {
            Some(t) => seq![(order.last() as usize, t)],
            None => Seq::empty(),
        }
    }
}

/// What code generation needs of a checked file: the resolved type of every
/// type definition and the interfaces, by item index, in the order of their
/// names.
#[derive(Debug)]
pub struct CodegenContext {
    pub resolved_type_names: Vec<(usize, StructuralType)>,
    pub resolved_interfaces: Vec<usize>,
}

/// A file whose definitions passed the type checker.
#[derive(Debug)]
pub struct IpcFile {
    items: Vec<IpcFileItem>,
    context: CodegenContext,
}

fn type_name_of(item: &IpcFileItem) -> (r: Option<&NamespacedIdent>)
    ensures
        match item_type_name(*item) {
            Some(n) => r matches Some(x) && x@ == n,
            None => r is None,
        },
{
    match item {
        IpcFileItem::TypeAlias(a) => Some(&a.name),
        IpcFileItem::StructDef(s) => Some(&s.name),
        IpcFileItem::EnumDef(e) => Some(&e.name),
        IpcFileItem::BitflagsDef(b) => Some(&b.name),
        IpcFileItem::InterfaceDef(_) => None,
    }
}

fn interface_name_of(item: &IpcFileItem) -> (r: Option<&NamespacedIdent>)
    ensures
        match item_interface_name(*item) {
            Some(n) => r matches Some(x) && x@ == n,
            None => r is None,
        },
{
    match item {
        IpcFileItem::InterfaceDef(i) => Some(&i.name),
        _ => None,
    }
}

fn defined_before(items: &[IpcFileItem], k: usize, is_type: bool) -> (r: bool)
    requires
        k < items@.len(),
        is_type ==> item_type_name(items@[k as int]) is Some,
        !is_type ==> item_interface_name(items@[k as int]) is Some,
    ensures
        is_type ==> r == type_defined_before(items@, k as int),
        !is_type ==> r == interface_defined_before(items@, k as int),
{
    let name = if is_type {
        type_name_of(&items[k])
    } else {
        interface_name_of(&items[k])
    };
    let name = match name {
        Some(n) => n,
        None => {
            return false;
        },
    };
    let mut j: usize = 0;
    while j < k
        invariant
            j <= k < items@.len(),
            is_type ==> item_type_name(items@[k as int]) == Some(name@),
            !is_type ==> item_interface_name(items@[k as int]) == Some(name@),
            is_type ==> forall|i: int| 0 <= i < j ==> item_type_name(#[trigger] items@[i]) != Some(name@),
            !is_type ==> forall|i: int| 0 <= i < j ==> item_interface_name(#[trigger] items@[i]) != Some(name@),
        decreases k - j,
    {
        let hit = if is_type {
            defines_type(&items[j], name)
        } else {
            defines_interface(&items[j], name)
        };
        if hit {
            return true;
        }
        j = j + 1;
    }
    false
}

/// Inserting `k` at `p`, before the first entry whose name comes after its
/// name, is `insert_by_name`.
proof fn lemma_insert_by_name(items: Seq<IpcFileItem>, order: Seq<int>, k: int, is_type: bool, p: int)
    requires
        0 <= p <= order.len(),
        forall|i: int| 0 <= i < p ==> !ident_lt(def_name(items[k], is_type)->0, #[trigger] def_name(items[order[i]], is_type)->0),
        p < order.len() ==> ident_lt(def_name(items[k], is_type)->0, def_name(items[order[p]], is_type)->0),
    ensures
        insert_by_name(items, order, k, is_type) == order.insert(p, k),
    decreases order.len(),
{
    if order.len() == 0 {
        assert(order.insert(p, k) =~= seq![k]);
    } else if p == 0 {
        assert(order.insert(p, k) =~= seq![k] + order);
    } else {
        let rest = order.drop_first();
        assert forall|i: int| 0 <= i < p - 1 implies !ident_lt(def_name(items[k], is_type)->0, #[trigger] def_name(items[rest[i]], is_type)->0) by {
            assert(rest[i] == order[i + 1]);
        }
        lemma_insert_by_name(items, rest, k, is_type, p - 1);
        assert(order.insert(p, k) =~= seq![order[0]] + rest.insert(p - 1, k));
    }
}

/// The name defined by item `k`, which defines one.
fn def_name_of(items: &[IpcFileItem], k: usize, is_type: bool) -> (r: &NamespacedIdent)
    requires
        k < items@.len(),
        def_name(items@[k as int], is_type) is Some,
    ensures
        def_name(items@[k as int], is_type) == Some(r@),
{
    let n = if is_type {
        type_name_of(&items[k])
    } else {
        interface_name_of(&items[k])
    };
    match n {
        Some(n) => n,
        None => {
            proof {
                assert(false);
            }
            type_name_of(&items[k]).unwrap()
        },
    }
}

/// The first definitions of types (when `is_type`) or interfaces, in the
/// order of their names.
fn definition_order(items: &[IpcFileItem], is_type: bool) -> (r: Vec<usize>)
    ensures
        r@.map_values(|x: usize| x as int) == def_order(items@, items@.len() as int, is_type),
        forall|j: int| 0 <= j < r@.len() ==> (#[trigger] r@[j]) < items@.len() && first_def(items@, r@[j] as int, is_type),
{
    let mut order: Vec<usize> = Vec::new();
    let mut k: usize = 0;
    while k < items.len()
        invariant
            k <= items@.len(),
            order@.map_values(|x: usize| x as int) == def_order(items@, k as int, is_type),
            forall|j: int| 0 <= j < order@.len() ==> (#[trigger] order@[j]) < k && first_def(items@, order@[j] as int, is_type),
        decreases items@.len() - k,
    {
        let defined = if is_type {
            type_name_of(&items[k])
        } else {
            interface_name_of(&items[k])
        };
        let first = match defined {
            Some(_) => !defined_before(items, k, is_type),
            None => false,
        };
        if first {
            let name = def_name_of(items, k, is_type);
            let mut p: usize = 0;
            while p < order.len()
                invariant
                    p <= order@.len(),
                    k < items@.len(),
                    def_name(items@[k as int], is_type) == Some(name@),
                    forall|j: int| 0 <= j < order@.len() ==> (#[trigger] order@[j]) < k && first_def(items@, order@[j] as int, is_type),
                    forall|i: int| 0 <= i < p ==> !ident_lt(name@, #[trigger] def_name(items@[order@[i] as int], is_type)->0),
                ensures
                    p <= order@.len(),
                    forall|i: int| 0 <= i < p ==> !ident_lt(name@, #[trigger] def_name(items@[order@[i] as int], is_type)->0),
                    p < order@.len() ==> ident_lt(name@, def_name(items@[order@[p as int] as int], is_type)->0),
                decreases order@.len() - p,
            {
                let other = def_name_of(items, order[p], is_type);
                if name.less_than(other) {
                    break;
                }
                p = p + 1;
            }
            let ghost o = order@.map_values(|x: usize| x as int);
            proof {
                assert forall|i: int| 0 <= i < p implies !ident_lt(def_name(items@[k as int], is_type)->0, #[trigger] def_name(items@[o[i]], is_type)->0) by {
                    assert(o[i] == order@[i] as int);
                }
                if p < o.len() {
                    assert(o[p as int] == order@[p as int] as int);
                }
                lemma_insert_by_name(items@, o, k as int, is_type, p as int);
            }
            order.insert(p, k);
            assert(order@.map_values(|x: usize| x as int) =~= o.insert(p as int, k as int));
        }
        k = k + 1;
    }
    order
}

/// Check one definition; a type definition that checks gives its resolved type.
fn resolve_and_typecheck(context: &TypecheckContext, k: usize) -> (r: Result<StructuralType, Vec<Diagnostic>>)
    requires
        k < context.items@.len(),
        item_type_name(context.items@[k as int]) is Some,
    ensures
        reports(r, item_diagnostics(context.items@, context.items@[k as int])),
        r matches Ok(t) ==> item_resolution(context.items@, k as int) == Some(t),
        r is Err ==> item_resolution(context.items@, k as int) is None,
{
    match &context.items[k] {
        IpcFileItem::TypeAlias(t) => t.referenced_type.typecheck_resolve(context),
        IpcFileItem::StructDef(s) => match s.typecheck(context) {
            Ok(_) => Ok(StructuralType::Struct(k)),
            Err(e) => Err(e),
        },
        IpcFileItem::EnumDef(e) => match e.typecheck(context) {
            Ok(_) => Ok(StructuralType::Enum(k)),
            Err(e) => Err(e),
        },
        IpcFileItem::BitflagsDef(b) => match b.typecheck(context) {
            Ok(_) => Ok(StructuralType::Bitflags(k)),
            Err(e) => Err(e),
        },
        IpcFileItem::InterfaceDef(_) => {
            proof {
                assert(false);
            }
            Ok(StructuralType::Bool)
        },
    }
}

impl IpcFile {
    /// Check a file's definitions: every name defined once, every rule of every
    /// definition followed. Fails with the diagnostics of all broken rules.
    pub fn try_new(items: Vec<IpcFileItem>) -> (r: Result<Self, Vec<Diagnostic>>)
        ensures
            reports(r, file_diagnostics(items@)),
            r matches Ok(f) ==> f.items_spec() == items@
                && f.context_spec().resolved_type_names@ == resolved_in(items@, def_order(items@, items@.len() as int, true))
                && f.context_spec().resolved_interfaces@.map_values(|x: usize| x as int) == def_order(
                items@,
                items@.len() as int,
                false,
            ),
    {
        let mut res: Vec<Diagnostic> = Vec::new();
        let context = TypecheckContext { items: items.as_slice() };
        let mut k: usize = 0;
        while k < items.len()
            invariant
                k <= items@.len(),
                context.items@ == items@,
                views(res@) == duplicate_diagnostics_upto(items@, k as int),
                all_errors(res@),
            decreases items@.len() - k,
        {
            let at = item_location(&items[k]);
            let ghost before = views(res@);
            match type_name_of(&items[k]) {
                Some(name) => {
                    proof {
                        lemma_find_type_le(items@, name@, 0, k as int);
                        lemma_find_type_bounds(items@, name@, 0);
                    }
                    match context.resolve_type(name, &at) {
                        Ok(j) => {
                            if j < k {
                                let m = quoted_ident_message("Multiple definitions of type ", name);
                                let note = quoted_ident_message("Previous definition of type ", name);
                                let prev = item_location(&items[j]);
                                let ghost dm = seq![repeated_view(m@, at, prev, note@)];
                                extend_result(&mut res, Err(repeated_error(m, at, prev, note.as_slice())), Ghost(dm));
                            } else {
                                assert(views(res@) + Seq::<DiagnosticView>::empty() =~= views(res@));
                            }
                        },
                        Err(_) => {
                            assert(false);
                        },
                    }
                },
                None => match interface_name_of(&items[k]) {
                    Some(name) => {
                        proof {
                            lemma_find_interface_le(items@, name@, 0, k as int);
                            lemma_find_interface_bounds(items@, name@, 0);
                        }
                        match context.resolve_interface(name, &at) {
                            Ok(j) => {
                                if j < k {
                                    let m = quoted_ident_message("Multiple definitions of interface ", name);
                                    let note = quoted_ident_message("Previous definition of interface ", name);
                                    let prev = item_location(&items[j]);
                                    let ghost dm = seq![repeated_view(m@, at, prev, note@)];
                                    extend_result(&mut res, Err(repeated_error(m, at, prev, note.as_slice())), Ghost(dm));
                                } else {
                                    assert(views(res@) + Seq::<DiagnosticView>::empty() =~= views(res@));
                                }
                            },
                            Err(_) => {
                                assert(false);
                            },
                        }
                    },
                    None => {
                        assert(views(res@) + Seq::<DiagnosticView>::empty() =~= views(res@));
                    },
                },
            }
            assert(views(res@) =~= before + duplicate_at(items@, k as int));
            k = k + 1;
        }
        let ghost dups = views(res@);
        let type_order = definition_order(items.as_slice(), true);
        let ghost order = type_order@.map_values(|x: usize| x as int);
        let mut resolved: Vec<(usize, StructuralType)> = Vec::new();
        let mut j: usize = 0;
        while j < type_order.len()
            invariant
                j <= type_order@.len(),
                context.items@ == items@,
                order == type_order@.map_values(|x: usize| x as int),
                forall|i: int| 0 <= i < type_order@.len() ==> (#[trigger] type_order@[i]) < items@.len() && first_def(items@, type_order@[i] as int, true),
                views(res@) == dups + diagnostics_in(items@, order.take(j as int)),
                all_errors(res@),
                resolved@ == resolved_in(items@, order.take(j as int)),
            decreases type_order@.len() - j,
        {
            let k = type_order[j];
            let ghost before = views(res@);
            proof {
                assert(order.take(j + 1).drop_last() =~= order.take(j as int));
                assert(order.take(j + 1).last() == k as int);
            }
            match resolve_and_typecheck(&context, k) {
                Ok(t) => {
                    resolved.push((k, t));
                    assert(before + Seq::<DiagnosticView>::empty() =~= before);
                },
                Err(e) => {
                    extend_result(&mut res, Err(e), Ghost(item_diagnostics(items@, items@[k as int])));
                },
            }
            proof {
                assert(views(res@) =~= dups + diagnostics_in(items@, order.take(j + 1)));
                assert(resolved@ =~= resolved_in(items@, order.take(j + 1)));
            }
            j = j + 1;
        }
        assert(order.take(j as int) =~= order);
        let ghost typed = views(res@);
        let interfaces = definition_order(items.as_slice(), false);
        let ghost iorder = interfaces@.map_values(|x: usize| x as int);
        let mut j: usize = 0;
        while j < interfaces.len()
            invariant
                j <= interfaces@.len(),
                context.items@ == items@,
                iorder == interfaces@.map_values(|x: usize| x as int),
                forall|i: int| 0 <= i < interfaces@.len() ==> (#[trigger] interfaces@[i]) < items@.len() && first_def(items@, interfaces@[i] as int, false),
                views(res@) == typed + diagnostics_in(items@, iorder.take(j as int)),
                all_errors(res@),
            decreases interfaces@.len() - j,
        {
            let k = interfaces[j];
            proof {
                assert(iorder.take(j + 1).drop_last() =~= iorder.take(j as int));
                assert(iorder.take(j + 1).last() == k as int);
            }
            let r = match &items[k] {
                IpcFileItem::InterfaceDef(i) => i.typecheck(&context),
                _ => Ok(()),
            };
            extend_result(&mut res, r, Ghost(item_diagnostics(items@, items@[k as int])));
            proof {
                assert(views(res@) =~= typed + diagnostics_in(items@, iorder.take(j + 1)));
            }
            j = j + 1;
        }
        assert(iorder.take(j as int) =~= iorder);
        proof {
            assert(views(res@) =~= file_diagnostics(items@));
        }
        if res.len() == 0 {
            Ok(IpcFile { items, context: CodegenContext { resolved_type_names: resolved, resolved_interfaces: interfaces } })
        } else {
            Err(res)
        }
    }

    /// The items of the file, in order.
    pub closed spec fn items_spec(&self) -> Seq<IpcFileItem> {
        self.items@
    }

    /// What code generation needs of the file.
    pub closed spec fn context_spec(&self) -> CodegenContext {
        self.context
    }

    /// The items of the file, in order.
    pub fn items(&self) -> (r: &Vec<IpcFileItem>)
        ensures
            r@ == self.items_spec(),
    {
        &self.items
    }

    /// What code generation needs of the file.
    pub fn context(&self) -> (r: &CodegenContext)
        ensures
            *r == self.context_spec(),
    {
        &self.context
    }
}

/// Where an item is defined.
pub fn item_location(item: &IpcFileItem) -> (r: Span)
    ensures
        r == location_of(*item),
{
    match item {
        IpcFileItem::TypeAlias(a) => a.location,
        IpcFileItem::StructDef(s) => s.location,
        IpcFileItem::EnumDef(e) => e.location,
        IpcFileItem::BitflagsDef(b) => b.location,
        IpcFileItem::InterfaceDef(i) => i.location,
    }
}

} // verus!
