//! The raw data of a generated command: the packed `In` and `Out`
//! structures that hold several values with their padding, and the
//! statement that builds the request's raw data.

use vstd::prelude::*;
use crate::swipc::codegen::{TokensView, nominal_tokens, nominal_tokens_spec};
use crate::swipc::grammar::NominalView;
use crate::swipc::layout::{FieldsLayoutItem, StructLayout, fields_layout_spec, layout_depth, layout_spec};
use crate::swipc::model::{IpcFileItem, NamespacedIdent, Struct, StructField};
use crate::swipc::diagnostics::Span;
use crate::swipc::text::{decimal, push_bytes, push_decimal};
use crate::swipc::typecheck::IpcFile;
use crate::swipc::wire_format::{
    CommandWireFormatInfo, RawDataIn, RawDataOut, RawInView, RawOutView, lemma_fields_layout_by_view,
    raw_in_fields, raw_out_fields,
};
use vstd::string::StringSliceAdditionalSpecFns;

verus! {

/// How many paddings come among the first `n` layout items.
pub open spec fn padding_count(items: Seq<FieldsLayoutItem>, n: int) -> nat
    decreases n,
{
    if n <= 0 {
        0
    } else {
        padding_count(items, n - 1) + (if items[n - 1] is Padding { 1nat } else { 0nat })
    }
}

/// The lines of a packed structure for its first `n` layout items: each
/// field with its type, each padding as a byte array named by its number.
pub open spec fn layout_lines(items: Seq<FieldsLayoutItem>, names: Seq<Seq<u8>>, tys: Seq<Seq<u8>>, n: int) -> Seq<u8>
    decreases n,
{
    if n <= 0 {
        Seq::empty()
    } else {
        layout_lines(items, names, tys, n - 1) + match items[n - 1] {
            FieldsLayoutItem::Field(_, i) => if i < names.len() && i < tys.len() {
                "    pub ".spec_bytes() + names[i as int] + ": ".spec_bytes() + tys[i as int] + ",\n".spec_bytes()
            } else {
                Seq::empty()
            },
            FieldsLayoutItem::Padding(size) => "    pub _padding_".spec_bytes() + decimal(padding_count(items, n - 1))
                + ": [u8; ".spec_bytes() + decimal(size as nat) + "],\n".spec_bytes(),
        }
    }
}

/// A packed structure of raw data named `name`, laid out as `items`, with
/// the statement that checks its size.
pub open spec fn raw_struct_text(name: Seq<u8>, items: Seq<FieldsLayoutItem>, names: Seq<Seq<u8>>, tys: Seq<Seq<u8>>, size: nat) -> Seq<u8> {
    "#[repr(C, packed)]\nstruct ".spec_bytes() + name + " {\n".spec_bytes() + layout_lines(items, names, tys, items.len() as int)
        + "}\nlet _ = ::core::mem::transmute::<".spec_bytes() + name + ", [u8; ".spec_bytes() + decimal(size)
        + "]>;\n".spec_bytes()
}

/// The layout items and size of a structure with these fields, where it has
/// a layout.
pub open spec fn raw_layout_spec(items: Seq<IpcFileItem>, fields: Seq<StructField>) -> Option<(Seq<FieldsLayoutItem>, nat)> {
    match fields_layout_spec(items, fields, fields.len() as int, layout_depth()) {
        Some(ls) => if layout_spec(ls).pos <= u64::MAX {
            Some((layout_spec(ls).items, layout_spec(ls).pos))
        } else {
            None
        },
        None => None,
    }
}

/// The Rust text of each type, in the module of namespace `ns`; `None`
/// where one cannot be written.
pub open spec fn types_text(ns: Seq<Seq<u8>>, tys: Seq<NominalView>) -> Option<Seq<Seq<u8>>>
    decreases tys.len(),
{
    if tys.len() == 0 {
        Some(Seq::empty())
    } else {
        match (types_text(ns, tys.drop_last()), nominal_tokens_spec(ns, tys.last())) {
            (Some(s), Some(k)) => Some(s.push(k.text)),
            _ => None,
        }
    }
}

/// The fields of the `In` literal: each value (the process id placeholder
/// set to 0), then each padding set to its default.
pub open spec fn in_literal_fields(raw: Seq<RawInView>, n: int) -> Seq<u8>
    decreases n,
{
    if n <= 0 {
        Seq::empty()
    } else {
        in_literal_fields(raw, n - 1) + (if raw[n - 1].pid_placeholder {
            "    ".spec_bytes() + raw[n - 1].name + ": 0,\n".spec_bytes()
        } else {
            "    ".spec_bytes() + raw[n - 1].name + ",\n".spec_bytes()
        })
    }
}

/// The paddings of the `In` literal, each set to its default.
pub open spec fn padding_defaults(k: nat) -> Seq<u8>
    decreases k,
{
    if k == 0 {
        Seq::empty()
    } else {
        padding_defaults((k - 1) as nat) + "    _padding_".spec_bytes() + decimal((k - 1) as nat)
            + ": Default::default(),\n".spec_bytes()
    }
}

/// The statement that defines `data_in`, the request's raw data, in the
/// module of namespace `ns`: nothing, the one value (0 for the process id
/// placeholder), or the packed `In` structure and its value. `None` where
/// the structure has no layout or a type cannot be written.
pub open spec fn raw_data_in_spec(ns: Seq<Seq<u8>>, items: Seq<IpcFileItem>, raw: Seq<RawDataIn>) -> Option<Seq<u8>> {
    let v = raw.map_values(|d: RawDataIn| d@);
    if raw.len() == 0 {
        Some("let data_in = ();\n".spec_bytes())
    } else if raw.len() == 1 {
        if v[0].pid_placeholder {
            Some("let data_in = 0u64;\n".spec_bytes())
        } else {
            Some("let data_in = ".spec_bytes() + v[0].name + ";\n".spec_bytes())
        }
    } else {
        match (raw_layout_spec(items, raw_in_fields(raw)), types_text(ns, v.map_values(|d: RawInView| d.ty))) {
            (Some((li, size)), Some(tys)) => Some(
                raw_struct_text("In".spec_bytes(), li, v.map_values(|d: RawInView| d.name), tys, size)
                    + "let data_in: In = In {\n".spec_bytes() + in_literal_fields(v, v.len() as int) + padding_defaults(
                    padding_count(li, li.len() as int),
                ) + "};\n".spec_bytes(),
            ),
            _ => None,
        }
    }
}

/// The packed `Out` structure of the response's raw data, in the module of
/// namespace `ns`, where there are several values; nothing for one or none.
pub open spec fn raw_data_out_struct_spec(ns: Seq<Seq<u8>>, items: Seq<IpcFileItem>, raw: Seq<RawDataOut>) -> Option<Seq<u8>> {
    let v = raw.map_values(|d: RawDataOut| d@);
    if raw.len() <= 1 {
        Some(Seq::empty())
    } else {
        match (raw_layout_spec(items, raw_out_fields(raw)), types_text(ns, v.map_values(|d: RawOutView| d.ty))) {
            (Some((li, size)), Some(tys)) => Some(raw_struct_text("Out".spec_bytes(), li, v.map_values(|d: RawOutView| d.name), tys, size)),
            _ => None,
        }
    }
}

/// The layout of a structure with these fields.
fn layout_of_fields(file: &IpcFile, fields: Vec<StructField>) -> (r: Option<StructLayout>)
    ensures
        match raw_layout_spec(file.items_spec(), fields@) {
            Some((li, size)) => r matches Some(l) && l.items@ == li && l.size == size,
            None => r is None,
        },
{
    let s = Struct {
        name: NamespacedIdent { namespace: Vec::new(), ident: Vec::new() },
        is_large_data: false,
        preferred_transfer_mode: None,
        fields,
        location: Span { file_id: 0, left: 0, right: 0 },
    };
    s.fields_layout(file)
}

/// Append the lines of a packed structure laid out as `items`.
fn push_layout_lines(t: &mut Vec<u8>, items: &Vec<FieldsLayoutItem>, names: &Vec<Vec<u8>>, tys: &Vec<Vec<u8>>)
    ensures
        final(t)@ == old(t)@ + layout_lines(
            items@,
            names@.map_values(|n: Vec<u8>| n@),
            tys@.map_values(|n: Vec<u8>| n@),
            items@.len() as int,
        ),
{
    let ghost o = t@;
    let ghost nv = names@.map_values(|n: Vec<u8>| n@);
    let ghost tv = tys@.map_values(|n: Vec<u8>| n@);
    let mut pads: u64 = 0;
    let mut i: usize = 0;
    while i < items.len()
        invariant
            i <= items@.len(),
            o == old(t)@,
            nv == names@.map_values(|n: Vec<u8>| n@),
            tv == tys@.map_values(|n: Vec<u8>| n@),
            pads == padding_count(items@, i as int),
            pads <= i,
            t@ == o + layout_lines(items@, nv, tv, i as int),
        decreases items@.len() - i,
    {
        match items[i] {
            FieldsLayoutItem::Field(_, k) => {
                if k < names.len() && k < tys.len() {
                    push_bytes(t, "    pub ".as_bytes());
                    push_bytes(t, names[k].as_slice());
                    push_bytes(t, ": ".as_bytes());
                    push_bytes(t, tys[k].as_slice());
                    push_bytes(t, ",\n".as_bytes());
                }
            },
            FieldsLayoutItem::Padding(size) => {
                push_bytes(t, "    pub _padding_".as_bytes());
                push_decimal(t, pads);
                push_bytes(t, ": [u8; ".as_bytes());
                push_decimal(t, size);
                push_bytes(t, "],\n".as_bytes());
                pads = pads + 1;
            },
        }
        i = i + 1;
    }
}

/// The packed structure named `name` laid out as `l`.
fn raw_struct(name: &str, l: &StructLayout, names: &Vec<Vec<u8>>, tys: &Vec<Vec<u8>>) -> (r: Vec<u8>)
    ensures
        r@ == raw_struct_text(
            name.spec_bytes(),
            l.items@,
            names@.map_values(|n: Vec<u8>| n@),
            tys@.map_values(|n: Vec<u8>| n@),
            l.size as nat,
        ),
{
    let mut t: Vec<u8> = Vec::new();
    push_bytes(&mut t, "#[repr(C, packed)]\nstruct ".as_bytes());
    push_bytes(&mut t, name.as_bytes());
    push_bytes(&mut t, " {\n".as_bytes());
    push_layout_lines(&mut t, &l.items, names, tys);
    push_bytes(&mut t, "}\nlet _ = ::core::mem::transmute::<".as_bytes());
    push_bytes(&mut t, name.as_bytes());
    push_bytes(&mut t, ", [u8; ".as_bytes());
    push_decimal(&mut t, l.size);
    push_bytes(&mut t, "]>;\n".as_bytes());
    t
}

impl CommandWireFormatInfo {
    /// The names and type texts of the raw input data.
    fn raw_in_names_types(&self, namespace: &Vec<Vec<u8>>) -> (r: Option<(Vec<Vec<u8>>, Vec<Vec<u8>>)>)
        ensures
            match types_text(namespace@.map_values(|p: Vec<u8>| p@), self@.raw_data_in.map_values(|d: RawInView| d.ty)) {
                Some(tys) => r matches Some((n, t)) && n@.map_values(|x: Vec<u8>| x@) == self@.raw_data_in.map_values(
                    |d: RawInView| d.name,
                ) && t@.map_values(|x: Vec<u8>| x@) == tys,
                None => r is None,
            },
    {
        let ghost ns = namespace@.map_values(|p: Vec<u8>| p@);
        let ghost tv = self@.raw_data_in.map_values(|d: RawInView| d.ty);
        let ghost nv = self@.raw_data_in.map_values(|d: RawInView| d.name);
        let mut names: Vec<Vec<u8>> = Vec::new();
        let mut tys: Vec<Vec<u8>> = Vec::new();
        let mut i: usize = 0;
        while i < self.raw_data_in.len()
            invariant
                i <= self@.raw_data_in.len(),
                ns == namespace@.map_values(|p: Vec<u8>| p@),
                tv == self@.raw_data_in.map_values(|d: RawInView| d.ty),
                nv == self@.raw_data_in.map_values(|d: RawInView| d.name),
                names@.map_values(|x: Vec<u8>| x@) == nv.take(i as int),
                types_text(ns, tv.take(i as int)) == Some(tys@.map_values(|x: Vec<u8>| x@)),
            decreases self@.raw_data_in.len() - i,
        {
            assert(tv.take(i + 1).drop_last() =~= tv.take(i as int));
            let k = match nominal_tokens(namespace, &self.raw_data_in[i].ty) {
                Some(k) => k,
                None => {
                    proof {
                        lemma_types_none_stays(ns, tv, i + 1, tv.len() as int);
                        assert(tv.take(tv.len() as int) =~= tv);
                    }
                    return None;
                },
            };
            let ghost t0 = tys@;
            let ghost n0 = names@;
            tys.push(k.text);
            let mut nm: Vec<u8> = Vec::new();
            push_bytes(&mut nm, self.raw_data_in[i].name.as_slice());
            let ghost nm0 = names@.map_values(|x: Vec<u8>| x@);
            let ghost nmv = nm@;
            names.push(nm);
            assert(names@.map_values(|x: Vec<u8>| x@) =~= nm0.push(nmv));
            assert(nv.take(i + 1) =~= nv.take(i as int).push(nv[i as int]));
            assert(tys@.map_values(|x: Vec<u8>| x@) =~= t0.map_values(|x: Vec<u8>| x@).push(k@.text));
            assert(names@.map_values(|x: Vec<u8>| x@) =~= nv.take(i + 1));
            i = i + 1;
        }
        assert(tv.take(tv.len() as int) =~= tv);
        assert(nv.take(nv.len() as int) =~= nv);
        Some((names, tys))
    }

    /// The names and type texts of the raw output data.
    fn raw_out_names_types(&self, namespace: &Vec<Vec<u8>>) -> (r: Option<(Vec<Vec<u8>>, Vec<Vec<u8>>)>)
        ensures
            match types_text(namespace@.map_values(|p: Vec<u8>| p@), self@.raw_data_out.map_values(|d: RawOutView| d.ty)) {
                Some(tys) => r matches Some((n, t)) && n@.map_values(|x: Vec<u8>| x@) == self@.raw_data_out.map_values(
                    |d: RawOutView| d.name,
                ) && t@.map_values(|x: Vec<u8>| x@) == tys,
                None => r is None,
            },
    {
        let ghost ns = namespace@.map_values(|p: Vec<u8>| p@);
        let ghost tv = self@.raw_data_out.map_values(|d: RawOutView| d.ty);
        let ghost nv = self@.raw_data_out.map_values(|d: RawOutView| d.name);
        let mut names: Vec<Vec<u8>> = Vec::new();
        let mut tys: Vec<Vec<u8>> = Vec::new();
        let mut i: usize = 0;
        while i < self.raw_data_out.len()
            invariant
                i <= self@.raw_data_out.len(),
                ns == namespace@.map_values(|p: Vec<u8>| p@),
                tv == self@.raw_data_out.map_values(|d: RawOutView| d.ty),
                nv == self@.raw_data_out.map_values(|d: RawOutView| d.name),
                names@.map_values(|x: Vec<u8>| x@) == nv.take(i as int),
                types_text(ns, tv.take(i as int)) == Some(tys@.map_values(|x: Vec<u8>| x@)),
            decreases self@.raw_data_out.len() - i,
        {
            assert(tv.take(i + 1).drop_last() =~= tv.take(i as int));
            let k = match nominal_tokens(namespace, &self.raw_data_out[i].ty) {
                Some(k) => k,
                None => {
                    proof {
                        lemma_types_none_stays(ns, tv, i + 1, tv.len() as int);
                        assert(tv.take(tv.len() as int) =~= tv);
                    }
                    return None;
                },
            };
            let ghost t0 = tys@;
            tys.push(k.text);
            let mut nm: Vec<u8> = Vec::new();
            push_bytes(&mut nm, self.raw_data_out[i].name.as_slice());
            let ghost nm0 = names@.map_values(|x: Vec<u8>| x@);
            let ghost nmv = nm@;
            names.push(nm);
            assert(names@.map_values(|x: Vec<u8>| x@) =~= nm0.push(nmv));
            assert(nv.take(i + 1) =~= nv.take(i as int).push(nv[i as int]));
            assert(tys@.map_values(|x: Vec<u8>| x@) =~= t0.map_values(|x: Vec<u8>| x@).push(k@.text));
            assert(names@.map_values(|x: Vec<u8>| x@) =~= nv.take(i + 1));
            i = i + 1;
        }
        assert(tv.take(tv.len() as int) =~= tv);
        assert(nv.take(nv.len() as int) =~= nv);
        Some((names, tys))
    }

    /// The statement that defines `data_in`, the request's raw data, in the
    /// module of namespace `namespace`.
    pub fn make_raw_data_in(&self, namespace: &Vec<Vec<u8>>, file: &IpcFile) -> (r: Option<Vec<u8>>)
        ensures
            match raw_data_in_spec(namespace@.map_values(|p: Vec<u8>| p@), file.items_spec(), self.raw_data_in@) {
                Some(v) => r matches Some(t) && t@ == v,
                None => r is None,
            },
    {
        let ghost v = self@.raw_data_in;
        assert(v == self.raw_data_in@.map_values(|d: RawDataIn| d@));
        let mut t: Vec<u8> = Vec::new();
        if self.raw_data_in.len() == 0 {
            push_bytes(&mut t, "let data_in = ();\n".as_bytes());
            return Some(t);
        }
        if self.raw_data_in.len() == 1 {
            if self.raw_data_in[0].pid_placeholder {
                push_bytes(&mut t, "let data_in = 0u64;\n".as_bytes());
            } else {
                push_bytes(&mut t, "let data_in = ".as_bytes());
                push_bytes(&mut t, self.raw_data_in[0].name.as_slice());
                push_bytes(&mut t, ";\n".as_bytes());
            }
            return Some(t);
        }
        let fields = self.raw_in_struct_fields();
        proof {
            lemma_fields_layout_by_view(file.items_spec(), fields@, raw_in_fields(self.raw_data_in@), fields@.len() as int, layout_depth());
        }
        let l = match layout_of_fields(file, fields) {
            Some(l) => l,
            None => {
                return None;
            },
        };
        let (names, tys) = match self.raw_in_names_types(namespace) {
            Some(p) => p,
            None => {
                return None;
            },
        };
        let s = raw_struct("In", &l, &names, &tys);
        push_bytes(&mut t, s.as_slice());
        push_bytes(&mut t, "let data_in: In = In {\n".as_bytes());
        let ghost o = t@;
        let mut i: usize = 0;
        while i < self.raw_data_in.len()
            invariant
                i <= v.len(),
                v == self@.raw_data_in,
                t@ == o + in_literal_fields(v, i as int),
            decreases v.len() - i,
        {
            push_bytes(&mut t, "    ".as_bytes());
            push_bytes(&mut t, self.raw_data_in[i].name.as_slice());
            if self.raw_data_in[i].pid_placeholder {
                push_bytes(&mut t, ": 0,\n".as_bytes());
            } else {
                push_bytes(&mut t, ",\n".as_bytes());
            }
            i = i + 1;
        }
        let ghost o2 = t@;
        let n_pads = count_paddings(&l.items);
        let mut k: u64 = 0;
        while k < n_pads
            invariant
                k <= n_pads,
                t@ == o2 + padding_defaults(k as nat),
            decreases n_pads - k,
        {
            push_bytes(&mut t, "    _padding_".as_bytes());
            push_decimal(&mut t, k);
            push_bytes(&mut t, ": Default::default(),\n".as_bytes());
            k = k + 1;
        }
        push_bytes(&mut t, "};\n".as_bytes());
        Some(t)
    }

    /// The packed `Out` structure of the response's raw data, where there
    /// are several values.
    pub fn make_raw_data_out_struct(&self, namespace: &Vec<Vec<u8>>, file: &IpcFile) -> (r: Option<Vec<u8>>)
        ensures
            match raw_data_out_struct_spec(namespace@.map_values(|p: Vec<u8>| p@), file.items_spec(), self.raw_data_out@) {
                Some(v) => r matches Some(t) && t@ == v,
                None => r is None,
            },
    {
        if self.raw_data_out.len() <= 1 {
            return Some(Vec::new());
        }
        let fields = self.raw_out_struct_fields();
        proof {
            lemma_fields_layout_by_view(file.items_spec(), fields@, raw_out_fields(self.raw_data_out@), fields@.len() as int, layout_depth());
        }
        let l = match layout_of_fields(file, fields) {
            Some(l) => l,
            None => {
                return None;
            },
        };
        let (names, tys) = match self.raw_out_names_types(namespace) {
            Some(p) => p,
            None => {
                return None;
            },
        };
        Some(raw_struct("Out", &l, &names, &tys))
    }
}

/// How many paddings a layout has.
fn count_paddings(items: &Vec<FieldsLayoutItem>) -> (r: u64)
    ensures
        r == padding_count(items@, items@.len() as int),
{
    let mut n: u64 = 0;
    let mut i: usize = 0;
    while i < items.len()
        invariant
            i <= items@.len(),
            n == padding_count(items@, i as int),
            n <= i,
        decreases items@.len() - i,
    {
        match items[i] {
            FieldsLayoutItem::Padding(_) => {
                n = n + 1;
            },
            FieldsLayoutItem::Field(_, _) => {},
        }
        i = i + 1;
    }
    n
}

proof fn lemma_types_none_stays(ns: Seq<Seq<u8>>, tys: Seq<NominalView>, m: int, n: int)
    requires
        0 <= m <= n <= tys.len(),
        types_text(ns, tys.take(m)) is None,
    ensures
        types_text(ns, tys.take(n)) is None,
    decreases n - m,
{
    if m < n {
        assert(tys.take(m + 1).drop_last() =~= tys.take(m));
        lemma_types_none_stays(ns, tys, m + 1, n);
    }
}

} // verus!
