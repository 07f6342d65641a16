//! The byte layout of types: sizes, alignments, and where the fields of a
//! structure go, with the padding between them.

use vstd::prelude::*;
use crate::math::{is_power_of_two, is_power_of_two_u64};
use crate::swipc::model::{IntType, Struct, StructField, StructuralType, IpcFileItem};
use crate::swipc::typecheck::{IpcFile, TypecheckContext, resolve_spec, resolve_depth};

verus! {

/// The size and alignment of a type; the alignment is a power of two.
#[derive(Debug)]
pub struct TypeLayout {
    size: u64,
    alignment: u64,
}

impl TypeLayout {
    #[verifier::type_invariant]
    spec fn inv(self) -> bool {
        is_power_of_two(self.alignment as int)
    }

    pub closed spec fn size_spec(self) -> u64 {
        self.size
    }

    pub closed spec fn alignment_spec(self) -> u64 {
        self.alignment
    }

    pub fn new(size: u64, alignment: u64) -> (r: Self)
        requires
            is_power_of_two(alignment as int),
        ensures
            r.size_spec() == size,
            r.alignment_spec() == alignment,
    {
        Self { size, alignment }
    }

    pub fn size(&self) -> (r: u64)
        ensures
            r == self.size_spec(),
    {
        self.size
    }

    pub fn alignment(&self) -> (r: u64)
        ensures
            r == self.alignment_spec(),
            is_power_of_two(r as int),
            r > 0,
    {
        proof {
            use_type_invariant(self);
            crate::math::lemma_pow2_ge_1(choose|k: nat| #[trigger] vstd::arithmetic::power2::pow2(k) == self.alignment as int);
        }
        self.alignment
    }
}

impl IntType {
    /// An integer is aligned to its size.
    pub fn layout(&self) -> (r: TypeLayout)
        ensures
            r.size_spec() == self.size_spec(),
            r.alignment_spec() == self.size_spec(),
    {
        proof {
            vstd::arithmetic::power2::lemma2_to64();
        }
        let size: u64 = match self {
            IntType::U8 | IntType::I8 => 1,
            IntType::U16 | IntType::I16 => 2,
            IntType::U32 | IntType::I32 => 4,
            IntType::U64 | IntType::I64 => 8,
        };
        proof {
            if size == 1 {
                assert(vstd::arithmetic::power2::pow2(0) == 1);
            } else if size == 2 {
                assert(vstd::arithmetic::power2::pow2(1) == 2);
            } else if size == 4 {
                assert(vstd::arithmetic::power2::pow2(2) == 4);
            } else {
                assert(vstd::arithmetic::power2::pow2(3) == 8);
            }
        }
        TypeLayout::new(size, size)
    }
}

/// One piece of a structure: padding of some size, or a field of some size
/// with its index.
#[derive(Clone, Copy, PartialEq, Eq, Debug, Structural)]
pub enum FieldsLayoutItem {
    Padding(u64),
    Field(u64, usize),
}

/// Where the fields of a structure go.
#[derive(Debug)]
pub struct StructLayout {
    pub field_offsets: Vec<u64>,
    pub items: Vec<FieldsLayoutItem>,
    pub alignment: u64,
    pub size: u64,
}

/// The padding that brings `pos` to a multiple of `align`.
pub open spec fn padding_for(pos: nat, align: nat) -> nat {
    (((align as int) - (pos % align) as int) % (align as int)) as nat
}

/// The layout of a structure so far: its pieces, the field offsets, the
/// position reached and the largest alignment seen.
pub struct LayoutState {
    pub items: Seq<FieldsLayoutItem>,
    pub offsets: Seq<nat>,
    pub pos: nat,
    pub max_align: nat,
}

/// The layout of the first `n` fields, given their sizes and alignments:
/// each field goes at the next multiple of its alignment, padding before it.
pub open spec fn layout_upto(ls: Seq<(u64, u64)>, n: int) -> LayoutState
    decreases n,
{
    if n <= 0 {
        LayoutState { items: Seq::empty(), offsets: Seq::empty(), pos: 0, max_align: 1 }
    } else {
        let st = layout_upto(ls, n - 1);
        let size = ls[n - 1].0;
        let align = ls[n - 1].1;
        let pad = padding_for(st.pos, align as nat);
        let items = if pad > 0 {
            st.items.push(FieldsLayoutItem::Padding(pad as u64))
        } else {
            st.items
        };
        LayoutState {
            items: items.push(FieldsLayoutItem::Field(size, (n - 1) as usize)),
            offsets: st.offsets.push(st.pos + pad),
            pos: (st.pos + pad + size) as nat,
            max_align: if align > st.max_align { align as nat } else { st.max_align },
        }
    }
}

/// The layout of a structure whose fields have the given sizes and
/// alignments: the fields in order, then padding to the largest alignment.
pub open spec fn layout_spec(ls: Seq<(u64, u64)>) -> LayoutState {
    let st = layout_upto(ls, ls.len() as int);
    let pad = padding_for(st.pos, st.max_align);
    LayoutState {
        items: if pad > 0 {
            st.items.push(FieldsLayoutItem::Padding(pad as u64))
        } else {
            st.items
        },
        offsets: st.offsets,
        pos: st.pos + pad,
        max_align: st.max_align,
    }
}

/// A structure layout is the one specified for these field layouts.
pub open spec fn layout_matches(l: StructLayout, ls: Seq<(u64, u64)>) -> bool {
    let st = layout_spec(ls);
    &&& l.items@ == st.items
    &&& l.field_offsets@.map_values(|o: u64| o as nat) == st.offsets
    &&& l.size == st.pos
    &&& l.alignment == st.max_align
}

/// The sizes and alignments of a list of layouts.
pub open spec fn size_aligns(layouts: Seq<TypeLayout>) -> Seq<(u64, u64)> {
    layouts.map_values(|l: TypeLayout| (l.size_spec(), l.alignment_spec()))
}

proof fn lemma_layout_grows(ls: Seq<(u64, u64)>, m: int, n: int)
    requires
        0 <= m <= n <= ls.len(),
    ensures
        layout_upto(ls, m).pos <= layout_upto(ls, n).pos,
        layout_upto(ls, n).max_align >= 1,
    decreases n,
{
    if n > 0 && m < n {
        lemma_layout_grows(ls, m, n - 1);
    } else if n > 0 {
        lemma_layout_grows(ls, n - 1, n - 1);
    }
}

proof fn lemma_padding_bound(pos: nat, align: nat)
    requires
        align > 0,
    ensures
        padding_for(pos, align) < align,
{
}

/// Lay out fields with the given layouts in order; `None` when the size of
/// the structure exceeds `u64::MAX`.
pub fn layout_fields(layouts: &[TypeLayout]) -> (r: Option<StructLayout>)
    ensures
        r matches Some(l) ==> layout_matches(l, size_aligns(layouts@)) && is_power_of_two(l.alignment as int),
        r is None ==> layout_spec(size_aligns(layouts@)).pos > u64::MAX,
{
    let ghost ls = size_aligns(layouts@);
    let mut field_offsets: Vec<u64> = Vec::new();
    let mut items: Vec<FieldsLayoutItem> = Vec::new();
    let mut position: u64 = 0;
    let mut max_alignment: u64 = 1;
    proof {
        assert(vstd::arithmetic::power2::pow2(0) == 1) by {
            vstd::arithmetic::power2::lemma2_to64();
        }
    }
    let mut i: usize = 0;
    while i < layouts.len()
        invariant
            i <= layouts@.len(),
            ls == size_aligns(layouts@),
            items@ == layout_upto(ls, i as int).items,
            field_offsets@.map_values(|o: u64| o as nat) == layout_upto(ls, i as int).offsets,
            position == layout_upto(ls, i as int).pos,
            max_alignment == layout_upto(ls, i as int).max_align,
            is_power_of_two(max_alignment as int),
        decreases layouts@.len() - i,
    {
        let size = layouts[i].size();
        let alignment = layouts[i].alignment();
        let ghost st = layout_upto(ls, i as int);
        proof {
            assert(ls[i as int] == (size, alignment));
            lemma_layout_grows(ls, i + 1, ls.len() as int);
            lemma_padding_bound(position as nat, alignment as nat);
        }
        if max_alignment < alignment {
            max_alignment = alignment;
        }
        let required_padding = (alignment - (position % alignment)) % alignment;
        if required_padding > 0 {
            items.push(FieldsLayoutItem::Padding(required_padding));
        }
        let offset = match position.checked_add(required_padding) {
            Some(o) => o,
            None => {
                proof {
                    lemma_final_bound(ls, i as int + 1);
                }
                return None;
            },
        };
        field_offsets.push(offset);
        items.push(FieldsLayoutItem::Field(size, i));
        position = match offset.checked_add(size) {
            Some(p) => p,
            None => {
                proof {
                    lemma_final_bound(ls, i as int + 1);
                }
                return None;
            },
        };
        i = i + 1;
        proof {
            assert(field_offsets@.map_values(|o: u64| o as nat) =~= layout_upto(ls, i as int).offsets);
        }
    }
    proof {
        assert(ls.len() == layouts@.len());
        lemma_layout_grows(ls, 0, ls.len() as int);
        lemma_padding_bound(position as nat, max_alignment as nat);
    }
    let required_padding = (max_alignment - (position % max_alignment)) % max_alignment;
    if required_padding > 0 {
        items.push(FieldsLayoutItem::Padding(required_padding));
    }
    let size = match position.checked_add(required_padding) {
        Some(s) => s,
        None => {
            return None;
        },
    };
    Some(StructLayout { field_offsets, items, alignment: max_alignment, size })
}

/// The final size is at least the position after any prefix of the fields.
proof fn lemma_final_bound(ls: Seq<(u64, u64)>, n: int)
    requires
        0 <= n <= ls.len(),
    ensures
        layout_upto(ls, n).pos <= layout_spec(ls).pos,
{
    lemma_layout_grows(ls, n, ls.len() as int);
}

/// The layout of a built-in type, if it has one without looking at other
/// definitions: `(size, alignment)`.
pub open spec fn builtin_layout(t: StructuralType) -> Option<(u64, u64)> {
    match t {
        StructuralType::Int(i) => Some((i.size_spec() as u64, i.size_spec() as u64)),
        StructuralType::Bool => Some((1, 1)),
        StructuralType::F32 => Some((4, 4)),
        StructuralType::Bytes { size, alignment } => if is_power_of_two(alignment as int) {
            Some((size, alignment))
        } else {
            None
        },
        StructuralType::Unknown { size: Some(s) } => Some((s, 1)),
        _ => None,
    }
}

/// The layout of the integer type of the definition at `k`, when it is an
/// enum or a set of bit flags.
pub open spec fn base_type_layout(items: Seq<IpcFileItem>, k: usize) -> Option<(u64, u64)> {
    if k >= items.len() {
        None
    } else {
        match items[k as int] {
            IpcFileItem::EnumDef(e) => Some((e.base_type.size_spec() as u64, e.base_type.size_spec() as u64)),
            IpcFileItem::BitflagsDef(b) => Some((b.base_type.size_spec() as u64, b.base_type.size_spec() as u64)),
            _ => None,
        }
    }
}

/// The `(size, alignment)` of a resolved type, looking into nested
/// structures at most `depth` levels deep; `None` for a type without a size,
/// an alignment that is not a power of two, a structure whose size exceeds
/// `u64::MAX`, or nesting deeper than `depth`.
pub open spec fn type_layout_spec(items: Seq<IpcFileItem>, t: StructuralType, depth: nat) -> Option<(u64, u64)>
    decreases depth, 0int, 0int,
{
    match t {
        StructuralType::Struct(k) => if depth == 0 || k >= items.len() {
            None
        } else {
            match items[k as int] {
                IpcFileItem::StructDef(s) => match fields_layout_spec(items, s.fields@, s.fields@.len() as int, (depth - 1) as nat) {
                    Some(ls) => if layout_spec(ls).pos <= u64::MAX {
                        Some((layout_spec(ls).pos as u64, layout_spec(ls).max_align as u64))
                    } else {
                        None
                    },
                    None => None,
                },
                _ => None,
            }
        },
        StructuralType::Enum(k) => base_type_layout(items, k),
        StructuralType::Bitflags(k) => base_type_layout(items, k),
        _ => builtin_layout(t),
    }
}

/// The `(size, alignment)` of each of the first `n` fields, each resolved
/// and laid out; `None` when one of them has no layout.
pub open spec fn fields_layout_spec(items: Seq<IpcFileItem>, fields: Seq<StructField>, n: int, depth: nat) -> Option<Seq<(u64, u64)>>
    decreases depth, 1int, n,
{
    if n <= 0 {
        Some(Seq::empty())
    } else {
        match fields_layout_spec(items, fields, n - 1, depth) {
            None => None,
            Some(prev) => match resolve_spec(items, fields[n - 1].ty, resolve_depth()) {
                Ok(t) => match type_layout_spec(items, t, depth) {
                    Some(l) => Some(prev.push(l)),
                    None => None,
                },
                Err(_) => None,
            },
        }
    }
}

/// Once a field has no layout, no longer prefix has one either.
proof fn lemma_fields_none_stays(items: Seq<IpcFileItem>, fields: Seq<StructField>, m: int, n: int, depth: nat)
    requires
        0 <= m <= n,
        fields_layout_spec(items, fields, m, depth) is None,
    ensures
        fields_layout_spec(items, fields, n, depth) is None,
    decreases n - m,
{
    if m < n {
        lemma_fields_none_stays(items, fields, m, n - 1, depth);
    }
}

/// The layout a structure with these fields gets, as `layout_fields` gives it.
pub open spec fn struct_layout_is(r: Option<StructLayout>, items: Seq<IpcFileItem>, fields: Seq<StructField>, depth: nat) -> bool {
    match fields_layout_spec(items, fields, fields.len() as int, depth) {
        Some(ls) => if layout_spec(ls).pos <= u64::MAX {
            r matches Some(l) && layout_matches(l, ls) && is_power_of_two(l.alignment as int)
        } else {
            r is None
        },
        None => r is None,
    }
}

impl IpcFile {
    /// The layout of a resolved type, looking into nested structures at most
    /// `depth` levels deep.
    pub fn layout_of(&self, t: &StructuralType, depth: usize) -> (r: Option<TypeLayout>)
        ensures
            match type_layout_spec(self.items_spec(), *t, depth as nat) {
                Some((s, a)) => r matches Some(l) && l.size_spec() == s && l.alignment_spec() == a,
                None => r is None,
            },
        decreases depth, 0nat,
    {
        proof {
            vstd::arithmetic::power2::lemma2_to64();
            assert(vstd::arithmetic::power2::pow2(0) == 1);
            assert(vstd::arithmetic::power2::pow2(2) == 4);
        }
        match t {
            StructuralType::Int(i) => Some(i.layout()),
            StructuralType::Bool => Some(TypeLayout::new(1, 1)),
            StructuralType::F32 => Some(TypeLayout::new(4, 4)),
            StructuralType::Bytes { size, alignment } => {
                if is_power_of_two_u64(*alignment) {
                    Some(TypeLayout::new(*size, *alignment))
                } else {
                    None
                }
            },
            StructuralType::Unknown { size } => match size {
                Some(s) => Some(TypeLayout::new(*s, 1)),
                None => None,
            },
            StructuralType::Struct(k) => {
                if depth == 0 || *k >= self.items().len() {
                    return None;
                }
                match &self.items()[*k] {
                    IpcFileItem::StructDef(s) => match self.fields_layout_with_depth(s, depth - 1) {
                        Some(l) => Some(TypeLayout::new(l.size, l.alignment)),
                        None => None,
                    },
                    _ => None,
                }
            },
            StructuralType::Enum(k) | StructuralType::Bitflags(k) => {
                if *k >= self.items().len() {
                    return None;
                }
                match &self.items()[*k] {
                    IpcFileItem::EnumDef(e) => Some(e.base_type.layout()),
                    IpcFileItem::BitflagsDef(b) => Some(b.base_type.layout()),
                    _ => None,
                }
            },
        }
    }

    /// The layout of a structure's fields, looking into nested structures at
    /// most `depth` levels deep.
    fn fields_layout_with_depth(&self, s: &Struct, depth: usize) -> (r: Option<StructLayout>)
        ensures
            struct_layout_is(r, self.items_spec(), s.fields@, depth as nat),
        decreases depth, 1nat,
    {
        let context = TypecheckContext { items: self.items().as_slice() };
        let ghost items = self.items_spec();
        let mut layouts: Vec<TypeLayout> = Vec::new();
        let mut i: usize = 0;
        while i < s.fields.len()
            invariant
                i <= s.fields@.len(),
                context.items@ == items,
                items == self.items_spec(),
                fields_layout_spec(items, s.fields@, i as int, depth as nat) == Some(size_aligns(layouts@)),
            decreases s.fields@.len() - i,
        {
            let t = match s.fields[i].ty.typecheck_resolve(&context) {
                Ok(t) => t,
                Err(_) => {
                    proof {
                        lemma_fields_none_stays(items, s.fields@, i as int + 1, s.fields@.len() as int, depth as nat);
                    }
                    return None;
                },
            };
            let l = match self.layout_of(&t, depth) {
                Some(l) => l,
                None => {
                    proof {
                        lemma_fields_none_stays(items, s.fields@, i as int + 1, s.fields@.len() as int, depth as nat);
                    }
                    return None;
                },
            };
            let ghost prev = layouts@;
            layouts.push(l);
            i = i + 1;
            proof {
                assert(size_aligns(layouts@) =~= size_aligns(prev).push((l.size_spec(), l.alignment_spec())));
            }
        }
        layout_fields(layouts.as_slice())
    }
}

/// How deeply nested structures may be laid out.
pub open spec fn layout_depth() -> nat {
    16
}

impl Struct {
    /// Where the fields of the structure go; `None` when a field has no layout.
    pub fn fields_layout(&self, file: &IpcFile) -> (r: Option<StructLayout>)
        ensures
            struct_layout_is(r, file.items_spec(), self.fields@, layout_depth()),
    {
        file.fields_layout_with_depth(self, 16)
    }

    /// The size and alignment of the structure.
    pub fn layout(&self, file: &IpcFile) -> (r: Option<TypeLayout>)
        ensures
            match fields_layout_spec(file.items_spec(), self.fields@, self.fields@.len() as int, layout_depth()) {
                Some(ls) => if layout_spec(ls).pos <= u64::MAX {
                    r matches Some(t) && t.size_spec() == layout_spec(ls).pos
                        && t.alignment_spec() == layout_spec(ls).max_align
                } else {
                    r is None
                },
                None => r is None,
            },
    {
        match self.fields_layout(file) {
            Some(l) => Some(TypeLayout::new(l.size, l.alignment)),
            None => None,
        }
    }
}

} // verus!
