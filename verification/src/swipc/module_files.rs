//! How generated items are laid out in files: one module per namespace and
//! per namespace prefix, each declaring its child modules in order, with
//! the items' imports before their code.

use vstd::prelude::*;
use crate::swipc::codegen::{GeneratedItem, GeneratedView};
use crate::swipc::command_body::filename_spec;
use crate::swipc::command_body::filename_for_namespace;
use crate::swipc::model::{bytes_less, bytes_lt, copy_parts};
use crate::swipc::text::{bytes_eq, copy_bytes, push_bytes};
use vstd::string::StringSliceAdditionalSpecFns;

verus! {

proof fn lemma_bytes_lt_irreflexive(a: Seq<u8>)
    ensures
        !bytes_lt(a, a),
    decreases a.len(),
{
    if a.len() > 0 {
        lemma_bytes_lt_irreflexive(a.drop_first());
    }
}

proof fn lemma_bytes_lt_transitive(a: Seq<u8>, b: Seq<u8>, c: Seq<u8>)
    requires
        bytes_lt(a, b),
        bytes_lt(b, c),
    ensures
        bytes_lt(a, c),
    decreases a.len(),
{
    if a.len() > 0 && b.len() > 0 && c.len() > 0 && a[0] == b[0] && b[0] == c[0] {
        lemma_bytes_lt_transitive(a.drop_first(), b.drop_first(), c.drop_first());
    }
}

proof fn lemma_bytes_lt_total(a: Seq<u8>, b: Seq<u8>)
    requires
        a != b,
    ensures
        bytes_lt(a, b) || bytes_lt(b, a),
    decreases a.len(),
{
    if a.len() == 0 && b.len() == 0 {
        assert(a =~= b);
    } else if a.len() > 0 && b.len() > 0 && a[0] == b[0] {
        if a.drop_first() =~= b.drop_first() {
            assert(a =~= seq![a[0]] + a.drop_first());
            assert(b =~= seq![b[0]] + b.drop_first());
        } else {
            lemma_bytes_lt_total(a.drop_first(), b.drop_first());
        }
    }
}

/// A list of names, by value.
pub open spec fn names(v: Seq<Vec<u8>>) -> Seq<Seq<u8>> {
    v.map_values(|n: Vec<u8>| n@)
}

/// Names in strictly increasing order.
pub open spec fn strictly_sorted(s: Seq<Seq<u8>>) -> bool {
    forall|i: int, j: int| 0 <= i < j < s.len() ==> bytes_lt(#[trigger] s[i], #[trigger] s[j])
}

/// Insert `x` into a list of names in strictly increasing order, unless it
/// is there already.
fn insert_sorted(v: &mut Vec<Vec<u8>>, x: Vec<u8>)
    requires
        strictly_sorted(old(v)@.map_values(|n: Vec<u8>| n@)),
    ensures
        strictly_sorted(final(v)@.map_values(|n: Vec<u8>| n@)),
        final(v)@.map_values(|n: Vec<u8>| n@).to_set() == old(v)@.map_values(|n: Vec<u8>| n@).to_set().insert(x@),
{
    let ghost s = v@.map_values(|n: Vec<u8>| n@);
    let mut p: usize = 0;
    while p < v.len() && bytes_less(v[p].as_slice(), x.as_slice())
        invariant
            p <= v@.len(),
            s == v@.map_values(|n: Vec<u8>| n@),
            forall|i: int| 0 <= i < p ==> bytes_lt(#[trigger] s[i], x@),
        decreases v@.len() - p,
    {
        p = p + 1;
    }
    if p < v.len() && bytes_eq(v[p].as_slice(), x.as_slice()) {
        assert(s.to_set().insert(x@) =~= s.to_set()) by {
            assert(s[p as int] == x@);
            assert(s.contains(x@));
        }
        return;
    }
    proof {
        if p < s.len() {
            assert(!bytes_lt(s[p as int], x@));
            lemma_bytes_lt_total(s[p as int], x@);
            assert(bytes_lt(x@, s[p as int]));
        }
    }
    v.insert(p, x);
    let ghost t = v@.map_values(|n: Vec<u8>| n@);
    assert(t =~= s.insert(p as int, x@));
    assert forall|i: int, j: int| 0 <= i < j < t.len() implies bytes_lt(#[trigger] t[i], #[trigger] t[j]) by {
        if j < p {
        } else if j == p {
            assert(t[i] == s[i]);
        } else if i < p {
            assert(t[j] == s[j - 1]);
            if j - 1 > p {
                lemma_bytes_lt_transitive(s[i], x@, s[p as int]);
                lemma_bytes_lt_transitive(s[i], s[p as int], s[j - 1]);
            } else {
                lemma_bytes_lt_transitive(s[i], x@, s[p as int]);
            }
        } else if i == p {
            assert(t[j] == s[j - 1]);
            if j - 1 > p {
                lemma_bytes_lt_transitive(x@, s[p as int], s[j - 1]);
            }
        } else {
            assert(t[i] == s[i - 1]);
            assert(t[j] == s[j - 1]);
        }
    }
    assert(t.to_set() =~= s.to_set().insert(x@)) by {
        assert forall|y: Seq<u8>| t.to_set().contains(y) <==> s.to_set().insert(x@).contains(y) by {
            if t.to_set().contains(y) {
                let k = choose|k: int| 0 <= k < t.len() && t[k] == y;
                if k < p {
                    assert(s[k] == y);
                } else if k > p {
                    assert(s[k - 1] == y);
                }
            }
            if s.to_set().contains(y) {
                let k = choose|k: int| 0 <= k < s.len() && s[k] == y;
                if k < p {
                    assert(t[k] == y);
                } else {
                    assert(t[k + 1] == y);
                }
            }
            if y == x@ {
                assert(t[p as int] == y);
            }
        }
    }
}

/// Whether `m` is the namespace of a generated module: the root, or a
/// prefix of an item's namespace.
pub open spec fn is_module(gs: Seq<GeneratedView>, m: Seq<Seq<u8>>) -> bool {
    m.len() == 0 || exists|a: int, b: int|
        0 <= a < gs.len() && 0 <= b <= gs[a].namespace.len() && m == #[trigger] gs[a].namespace.take(b)
}

/// The modules found among the prefixes of the first `i` items' namespaces,
/// and of the first `k` prefixes of item `i`'s.
pub open spec fn seen(gs: Seq<GeneratedView>, i: int, k: int, m: Seq<Seq<u8>>) -> bool {
    ||| m.len() == 0
    ||| exists|a: int, b: int| 0 <= a < i && 0 <= b <= gs[a].namespace.len() && m == #[trigger] gs[a].namespace.take(b)
    ||| exists|b: int| 0 <= b < k && b <= gs[i].namespace.len() && m == #[trigger] gs[i].namespace.take(b)
}

/// The view of a list of namespaces.
pub open spec fn ns_list(v: Seq<Vec<Vec<u8>>>) -> Seq<Seq<Seq<u8>>> {
    v.map_values(|n: Vec<Vec<u8>>| n@.map_values(|p: Vec<u8>| p@))
}

/// Whether two namespaces are equal.
fn parts_equal(a: &Vec<Vec<u8>>, b: &Vec<Vec<u8>>) -> (r: bool)
    ensures
        r == (a@.map_values(|p: Vec<u8>| p@) == b@.map_values(|p: Vec<u8>| p@)),
{
    let ghost av = a@.map_values(|p: Vec<u8>| p@);
    let ghost bv = b@.map_values(|p: Vec<u8>| p@);
    if a.len() != b.len() {
        assert(av.len() != bv.len());
        return false;
    }
    let mut i: usize = 0;
    while i < a.len()
        invariant
            i <= a@.len(),
            a@.len() == b@.len(),
            av == a@.map_values(|p: Vec<u8>| p@),
            bv == b@.map_values(|p: Vec<u8>| p@),
            forall|j: int| 0 <= j < i ==> av[j] == bv[j],
        decreases a@.len() - i,
    {
        if !bytes_eq(a[i].as_slice(), b[i].as_slice()) {
            assert(av[i as int] != bv[i as int]);
            return false;
        }
        i = i + 1;
    }
    assert(av =~= bv);
    true
}

/// Whether the list holds the namespace.
fn holds_namespace(v: &Vec<Vec<Vec<u8>>>, m: &Vec<Vec<u8>>) -> (r: bool)
    ensures
        r == ns_list(v@).contains(m@.map_values(|p: Vec<u8>| p@)),
{
    let ghost mv = m@.map_values(|p: Vec<u8>| p@);
    let mut i: usize = 0;
    while i < v.len()
        invariant
            i <= v@.len(),
            mv == m@.map_values(|p: Vec<u8>| p@),
            forall|j: int| 0 <= j < i ==> ns_list(v@)[j] != mv,
        decreases v@.len() - i,
    {
        if parts_equal(&v[i], m) {
            assert(ns_list(v@)[i as int] == mv);
            return true;
        }
        i = i + 1;
    }
    false
}

/// The first `k` parts of a namespace.
fn take_parts(ns: &Vec<Vec<u8>>, k: usize) -> (r: Vec<Vec<u8>>)
    requires
        k <= ns@.len(),
    ensures
        r@.map_values(|p: Vec<u8>| p@) == ns@.map_values(|p: Vec<u8>| p@).take(k as int),
{
    let mut r: Vec<Vec<u8>> = Vec::new();
    let mut i: usize = 0;
    while i < k
        invariant
            i <= k <= ns@.len(),
            r@.map_values(|p: Vec<u8>| p@) == ns@.map_values(|p: Vec<u8>| p@).take(i as int),
        decreases k - i,
    {
        let ghost r0 = r@.map_values(|p: Vec<u8>| p@);
        let c = copy_bytes(ns[i].as_slice());
        let ghost cv = c@;
        r.push(c);
        assert(r@.map_values(|p: Vec<u8>| p@) =~= r0.push(cv));
        assert(ns@.map_values(|p: Vec<u8>| p@).take(i + 1) =~= ns@.map_values(|p: Vec<u8>| p@).take(i as int).push(cv));
        i = i + 1;
    }
    r
}

/// Add a namespace to a list of distinct namespaces, unless it is there.
fn add_namespace(mods: &mut Vec<Vec<Vec<u8>>>, p: Vec<Vec<u8>>)
    requires
        ns_list(old(mods)@).no_duplicates(),
    ensures
        ns_list(final(mods)@).no_duplicates(),
        forall|m: Seq<Seq<u8>>| #[trigger] ns_list(final(mods)@).contains(m) <==> (ns_list(old(mods)@).contains(m) || m == p@.map_values(|q: Vec<u8>| q@)),
{
    let ghost before = ns_list(mods@);
    let ghost pv = p@.map_values(|q: Vec<u8>| q@);
    if !holds_namespace(mods, &p) {
        mods.push(p);
        assert(ns_list(mods@) =~= before.push(pv));
        assert forall|x: int, y: int| 0 <= x < y < ns_list(mods@).len() implies ns_list(mods@)[x] != ns_list(mods@)[y] by {
            if y == before.len() {
                assert(before[x] != pv);
            }
        }
        assert forall|m: Seq<Seq<u8>>| #[trigger] ns_list(mods@).contains(m) <==> (before.contains(m) || m == pv) by {
            if m == pv {
                assert(ns_list(mods@)[before.len() as int] == pv);
            }
            if before.contains(m) {
                let j = choose|j: int| 0 <= j < before.len() && before[j] == m;
                assert(ns_list(mods@)[j] == m);
            }
        }
    }
}

/// The namespaces of all generated modules, each once.
pub fn module_namespaces(gs: &Vec<GeneratedItem>) -> (r: Vec<Vec<Vec<u8>>>)
    ensures
        ns_list(r@).no_duplicates(),
        forall|m: Seq<Seq<u8>>| ns_list(r@).contains(m) <==> is_module(gs@.map_values(|g: GeneratedItem| g@), m),
{
    let ghost gv = gs@.map_values(|g: GeneratedItem| g@);
    let mut mods: Vec<Vec<Vec<u8>>> = Vec::new();
    let root: Vec<Vec<u8>> = Vec::new();
    assert(root@.map_values(|q: Vec<u8>| q@) =~= Seq::<Seq<u8>>::empty());
    mods.push(root);
    proof {
        assert(ns_list(mods@) =~= seq![Seq::<Seq<u8>>::empty()]);
        assert forall|m: Seq<Seq<u8>>| ns_list(mods@).contains(m) <==> seen(gv, 0, 0, m) by {
            if ns_list(mods@).contains(m) {
                assert(ns_list(mods@)[0] == m);
            }
            if m.len() == 0 {
                assert(m =~= Seq::<Seq<u8>>::empty());
                assert(ns_list(mods@)[0] == m);
            }
        }
    }
    let mut i: usize = 0;
    while i < gs.len()
        invariant
            i <= gs@.len(),
            gv == gs@.map_values(|g: GeneratedItem| g@),
            ns_list(mods@).no_duplicates(),
            forall|m: Seq<Seq<u8>>| ns_list(mods@).contains(m) <==> seen(gv, i as int, 0, m),
        decreases gs@.len() - i,
    {
        let ns = &gs[i].namespace;
        let ghost nsv = gv[i as int].namespace;
        assert(nsv == ns@.map_values(|p: Vec<u8>| p@));
        let mut k: usize = 0;
        while k < ns.len()
            invariant
                i < gs@.len(),
                k <= ns@.len(),
                gv == gs@.map_values(|g: GeneratedItem| g@),
                nsv == gv[i as int].namespace,
                nsv == ns@.map_values(|p: Vec<u8>| p@),
                ns_list(mods@).no_duplicates(),
                forall|m: Seq<Seq<u8>>| ns_list(mods@).contains(m) <==> seen(gv, i as int, k as int, m),
            decreases ns@.len() - k,
        {
            let p = take_parts(ns, k);
            let ghost before = ns_list(mods@);
            add_namespace(&mut mods, p);
            proof {
                lemma_seen_step(gv, i as int, k as int, before, ns_list(mods@));
            }
            k = k + 1;
        }
        let p = take_parts(ns, k);
        let ghost before = ns_list(mods@);
        add_namespace(&mut mods, p);
        proof {
            lemma_seen_step(gv, i as int, k as int, before, ns_list(mods@));
            assert forall|m: Seq<Seq<u8>>| #[trigger] seen(gv, i as int, k + 1, m) <==> seen(gv, i + 1, 0, m) by {
                if seen(gv, i + 1, 0, m) && m.len() != 0 {
                    let (a, b) = choose|a: int, b: int|
                        0 <= a < i + 1 && 0 <= b <= gv[a].namespace.len() && m == #[trigger] gv[a].namespace.take(b);
                    if a == i {
                        assert(m == gv[i as int].namespace.take(b));
                    } else {
                        assert(0 <= a < i);
                    }
                }
            }
        }
        i = i + 1;
    }
    assert forall|m: Seq<Seq<u8>>| #[trigger] seen(gv, gs@.len() as int, 0, m) <==> is_module(gv, m) by {}
    mods
}

proof fn lemma_seen_step(gv: Seq<GeneratedView>, i: int, k: int, before: Seq<Seq<Seq<u8>>>, after: Seq<Seq<Seq<u8>>>)
    requires
        0 <= i < gv.len(),
        0 <= k <= gv[i].namespace.len(),
        forall|m: Seq<Seq<u8>>| before.contains(m) <==> seen(gv, i, k, m),
        forall|m: Seq<Seq<u8>>| #[trigger] after.contains(m) <==> (before.contains(m) || m == gv[i].namespace.take(k)),
    ensures
        forall|m: Seq<Seq<u8>>| after.contains(m) <==> seen(gv, i, k + 1, m),
{
    assert forall|m: Seq<Seq<u8>>| after.contains(m) <==> seen(gv, i, k + 1, m) by {
        if seen(gv, i, k + 1, m) && !seen(gv, i, k, m) {
            let b = choose|b: int| 0 <= b < k + 1 && b <= gv[i].namespace.len() && m == #[trigger] gv[i].namespace.take(b);
            if b < k {
                assert(seen(gv, i, k, m));
            }
        }
        if m == gv[i].namespace.take(k) {
            assert(seen(gv, i, k + 1, m));
        }
    }
}

/// A generated file: the namespace of its module, its child modules in
/// order, its path and its text.
#[derive(Debug)]
pub struct ModuleFile {
    pub namespace: Vec<Vec<u8>>,
    pub children: Vec<Vec<u8>>,
    pub filename: Vec<u8>,
    pub text: Vec<u8>,
}

/// `use` items, one per line.
pub open spec fn uses_text(is: Seq<(Seq<u8>, Seq<u8>)>) -> Seq<u8>
    decreases is.len(),
{
    if is.len() == 0 {
        Seq::empty()
    } else {
        uses_text(is.drop_last()) + "use ".spec_bytes() + is.last().0 + "::".spec_bytes() + is.last().1 + ";\n".spec_bytes()
    }
}

/// `mod` items, one per line.
pub open spec fn mod_lines(cs: Seq<Seq<u8>>) -> Seq<u8>
    decreases cs.len(),
{
    if cs.len() == 0 {
        Seq::empty()
    } else {
        mod_lines(cs.drop_last()) + "mod ".spec_bytes() + cs.last() + ";\n".spec_bytes()
    }
}

/// The imports of the first `n` items that go into module `m`, in order.
pub open spec fn module_imports(gs: Seq<GeneratedView>, m: Seq<Seq<u8>>, n: int) -> Seq<(Seq<u8>, Seq<u8>)>
    decreases n,
{
    if n <= 0 {
        Seq::empty()
    } else {
        module_imports(gs, m, n - 1) + (if gs[n - 1].namespace == m { gs[n - 1].imports } else { Seq::empty() })
    }
}

/// Each import once, in the order of first appearance.
pub open spec fn distinct_imports(s: Seq<(Seq<u8>, Seq<u8>)>) -> Seq<(Seq<u8>, Seq<u8>)>
    decreases s.len(),
{
    if s.len() == 0 {
        Seq::empty()
    } else if distinct_imports(s.drop_last()).contains(s.last()) {
        distinct_imports(s.drop_last())
    } else {
        distinct_imports(s.drop_last()).push(s.last())
    }
}

/// The code of the first `n` items that go into module `m`.
pub open spec fn module_code(gs: Seq<GeneratedView>, m: Seq<Seq<u8>>, n: int) -> Seq<u8>
    decreases n,
{
    if n <= 0 {
        Seq::empty()
    } else {
        module_code(gs, m, n - 1) + (if gs[n - 1].namespace == m { gs[n - 1].text } else { Seq::empty() })
    }
}

/// The text of module `m` with child modules `cs`: at the root, the lints
/// that generated code allows; then the items' imports, each once, the
/// child modules and the items' code.
pub open spec fn module_text_spec(gs: Seq<GeneratedView>, m: Seq<Seq<u8>>, cs: Seq<Seq<u8>>) -> Seq<u8> {
    (if m.len() == 0 {
        "#![allow(non_upper_case_globals, clippy::all)]\n".spec_bytes()
    } else {
        Seq::empty()
    }) + uses_text(distinct_imports(module_imports(gs, m, gs.len() as int))) + mod_lines(cs) + module_code(
        gs,
        m,
        gs.len() as int,
    )
}

/// The names `c` of the child modules `m.push(c)` among the first `j`
/// namespaces of `mods`.
pub open spec fn child_among(mods: Seq<Seq<Seq<u8>>>, m: Seq<Seq<u8>>, j: int, c: Seq<u8>) -> bool {
    exists|x: int| 0 <= x < j && #[trigger] mods[x] == m.push(c)
}

/// The child modules of `m` among `mods`, in order.
fn children_of(mods: &Vec<Vec<Vec<u8>>>, m: &Vec<Vec<u8>>) -> (r: Vec<Vec<u8>>)
    ensures
        strictly_sorted(names(r@)),
        forall|c: Seq<u8>| #[trigger] names(r@).contains(c) <==> ns_list(mods@).contains(
            m@.map_values(|p: Vec<u8>| p@).push(c),
        ),
{
    let ghost mv = m@.map_values(|p: Vec<u8>| p@);
    let ghost ml = ns_list(mods@);
    let mut r: Vec<Vec<u8>> = Vec::new();
    let mut j: usize = 0;
    assert(names(r@) =~= Seq::<Seq<u8>>::empty());
    while j < mods.len()
        invariant
            j <= mods@.len(),
            mv == m@.map_values(|p: Vec<u8>| p@),
            ml == ns_list(mods@),
            strictly_sorted(names(r@)),
            forall|c: Seq<u8>| #[trigger] names(r@).to_set().contains(c) <==> child_among(ml, mv, j as int, c),
        decreases mods@.len() - j,
    {
        let cand = &mods[j];
        let ghost cv = ml[j as int];
        assert(cv == cand@.map_values(|p: Vec<u8>| p@));
        let ghost before = names(r@).to_set();
        assert(cv.len() == cand@.len());
        assert(mv.len() == m@.len());
        if cand.len() > m.len() && cand.len() - 1 == m.len() {
            let pre = take_parts(cand, m.len());
            if parts_equal(&pre, m) {
                let c = copy_bytes(cand[m.len()].as_slice());
                let ghost cc = c@;
                assert(cv =~= mv.push(cc));
                insert_sorted(&mut r, c);
                assert forall|x: Seq<u8>| #[trigger] names(r@).to_set().contains(x) <==> child_among(ml, mv, j + 1, x) by {
                    if child_among(ml, mv, j + 1, x) && !child_among(ml, mv, j as int, x) {
                        let y = choose|y: int| 0 <= y < j + 1 && #[trigger] ml[y] == mv.push(x);
                        assert(y == j);
                        assert(mv.push(x) == mv.push(cc));
                        assert(x == mv.push(x).last());
                    }
                    if x == cc {
                        assert(ml[j as int] == mv.push(x));
                    }
                    if child_among(ml, mv, j as int, x) {
                        let y = choose|y: int| 0 <= y < j && #[trigger] ml[y] == mv.push(x);
                        assert(ml[y] == mv.push(x));
                    }
                }
            } else {
                assert forall|x: Seq<u8>| #[trigger] names(r@).to_set().contains(x) <==> child_among(ml, mv, j + 1, x) by {
                    if child_among(ml, mv, j + 1, x) && !child_among(ml, mv, j as int, x) {
                        let y = choose|y: int| 0 <= y < j + 1 && #[trigger] ml[y] == mv.push(x);
                        assert(y == j);
                        assert(cv.take(mv.len() as int) =~= mv);
                    }
                    if child_among(ml, mv, j as int, x) {
                        let y = choose|y: int| 0 <= y < j && #[trigger] ml[y] == mv.push(x);
                        assert(ml[y] == mv.push(x));
                    }
                }
            }
        } else {
            assert forall|x: Seq<u8>| #[trigger] names(r@).to_set().contains(x) <==> child_among(ml, mv, j + 1, x) by {
                if child_among(ml, mv, j + 1, x) && !child_among(ml, mv, j as int, x) {
                    let y = choose|y: int| 0 <= y < j + 1 && #[trigger] ml[y] == mv.push(x);
                    assert(y == j);
                    assert(mv.push(x).len() == mv.len() + 1);
                }
                if child_among(ml, mv, j as int, x) {
                    let y = choose|y: int| 0 <= y < j && #[trigger] ml[y] == mv.push(x);
                    assert(ml[y] == mv.push(x));
                }
            }
        }
        j = j + 1;
    }
    assert forall|c: Seq<u8>| #[trigger] names(r@).contains(c) <==> ml.contains(mv.push(c)) by {
        assert(names(r@).contains(c) <==> names(r@).to_set().contains(c));
        if ml.contains(mv.push(c)) {
            let y = choose|y: int| 0 <= y < ml.len() && ml[y] == mv.push(c);
            assert(child_among(ml, mv, mods@.len() as int, c));
        }
    }
    r
}

/// What a generated file holds: child modules in order, exactly the
/// modules one part below its own; the path that `filename_spec` gives;
/// and the text `module_text_spec` gives.
pub open spec fn file_ok(gs: Seq<GeneratedView>, f: ModuleFile) -> bool {
    let m = f.namespace@.map_values(|p: Vec<u8>| p@);
    &&& strictly_sorted(names(f.children@))
    &&& forall|c: Seq<u8>| #[trigger] names(f.children@).contains(c) <==> is_module(gs, m.push(c))
    &&& f.filename@ == filename_spec(m, f.children@.len() > 0)
    &&& f.text@ == module_text_spec(gs, m, names(f.children@))
}

/// The namespaces of files, by value.
pub open spec fn files_ns(v: Seq<ModuleFile>) -> Seq<Seq<Seq<u8>>> {
    v.map_values(|f: ModuleFile| f.namespace@.map_values(|p: Vec<u8>| p@))
}

/// Append `use` items.
fn push_uses(t: &mut Vec<u8>, is: &Vec<(Vec<u8>, Vec<u8>)>)
    ensures
        final(t)@ == old(t)@ + uses_text(is@.map_values(|p: (Vec<u8>, Vec<u8>)| (p.0@, p.1@))),
{
    let ghost o = t@;
    let ghost iv = is@.map_values(|p: (Vec<u8>, Vec<u8>)| (p.0@, p.1@));
    let mut i: usize = 0;
    while i < is.len()
        invariant
            i <= is@.len(),
            o == old(t)@,
            iv == is@.map_values(|p: (Vec<u8>, Vec<u8>)| (p.0@, p.1@)),
            t@ == o + uses_text(iv.take(i as int)),
        decreases is@.len() - i,
    {
        assert(iv.take(i + 1).drop_last() =~= iv.take(i as int));
        push_bytes(t, "use ".as_bytes());
        push_bytes(t, is[i].0.as_slice());
        push_bytes(t, "::".as_bytes());
        push_bytes(t, is[i].1.as_slice());
        push_bytes(t, ";\n".as_bytes());
        i = i + 1;
    }
    assert(iv.take(iv.len() as int) =~= iv);
}

/// Whether the list holds the import.
fn holds_import(v: &Vec<(Vec<u8>, Vec<u8>)>, x: &(Vec<u8>, Vec<u8>)) -> (r: bool)
    ensures
        r == v@.map_values(|p: (Vec<u8>, Vec<u8>)| (p.0@, p.1@)).contains((x.0@, x.1@)),
{
    let ghost vv = v@.map_values(|p: (Vec<u8>, Vec<u8>)| (p.0@, p.1@));
    let mut i: usize = 0;
    while i < v.len()
        invariant
            i <= v@.len(),
            vv == v@.map_values(|p: (Vec<u8>, Vec<u8>)| (p.0@, p.1@)),
            forall|j: int| 0 <= j < i ==> vv[j] != (x.0@, x.1@),
        decreases v@.len() - i,
    {
        if bytes_eq(v[i].0.as_slice(), x.0.as_slice()) && bytes_eq(v[i].1.as_slice(), x.1.as_slice()) {
            assert(vv[i as int] == (x.0@, x.1@));
            return true;
        }
        i = i + 1;
    }
    false
}

/// The imports of the items that go into module `m`, each once.
fn module_uses_of(gs: &Vec<GeneratedItem>, m: &Vec<Vec<u8>>) -> (r: Vec<(Vec<u8>, Vec<u8>)>)
    ensures
        r@.map_values(|p: (Vec<u8>, Vec<u8>)| (p.0@, p.1@)) == distinct_imports(
            module_imports(gs@.map_values(|g: GeneratedItem| g@), m@.map_values(|p: Vec<u8>| p@), gs@.len() as int),
        ),
{
    let ghost gv = gs@.map_values(|g: GeneratedItem| g@);
    let ghost mv = m@.map_values(|p: Vec<u8>| p@);
    let mut out: Vec<(Vec<u8>, Vec<u8>)> = Vec::new();
    let mut i: usize = 0;
    assert(out@.map_values(|p: (Vec<u8>, Vec<u8>)| (p.0@, p.1@)) =~= distinct_imports(Seq::empty()));
    assert(module_imports(gv, mv, 0) =~= Seq::<(Seq<u8>, Seq<u8>)>::empty());
    while i < gs.len()
        invariant
            i <= gs@.len(),
            gv == gs@.map_values(|g: GeneratedItem| g@),
            mv == m@.map_values(|p: Vec<u8>| p@),
            out@.map_values(|p: (Vec<u8>, Vec<u8>)| (p.0@, p.1@)) == distinct_imports(module_imports(gv, mv, i as int)),
        decreases gs@.len() - i,
    {
        let ghost prev = module_imports(gv, mv, i as int);
        if parts_equal(&gs[i].namespace, m) {
            let is = &gs[i].imports;
            let ghost iv = gv[i as int].imports;
            assert(iv == is@.map_values(|p: (Vec<u8>, Vec<u8>)| (p.0@, p.1@)));
            let mut k: usize = 0;
            while k < is.len()
                invariant
                    k <= is@.len(),
                    iv == is@.map_values(|p: (Vec<u8>, Vec<u8>)| (p.0@, p.1@)),
                    out@.map_values(|p: (Vec<u8>, Vec<u8>)| (p.0@, p.1@)) == distinct_imports(prev + iv.take(k as int)),
                decreases is@.len() - k,
            {
                let ghost s1 = prev + iv.take(k + 1);
                assert(s1.drop_last() =~= prev + iv.take(k as int));
                assert(s1.last() == (is@[k as int].0@, is@[k as int].1@));
                if !holds_import(&out, &is[k]) {
                    let ghost o = out@.map_values(|p: (Vec<u8>, Vec<u8>)| (p.0@, p.1@));
                    out.push((copy_bytes(is[k].0.as_slice()), copy_bytes(is[k].1.as_slice())));
                    assert(out@.map_values(|p: (Vec<u8>, Vec<u8>)| (p.0@, p.1@)) =~= o.push(s1.last()));
                }
                k = k + 1;
            }
            assert(prev + iv.take(iv.len() as int) =~= module_imports(gv, mv, i + 1));
        } else {
            assert(module_imports(gv, mv, i + 1) =~= prev);
        }
        i = i + 1;
    }
    out
}

/// The text of module `m`, whose child modules are `cs`.
fn module_text(gs: &Vec<GeneratedItem>, m: &Vec<Vec<u8>>, cs: &Vec<Vec<u8>>) -> (r: Vec<u8>)
    ensures
        r@ == module_text_spec(gs@.map_values(|g: GeneratedItem| g@), m@.map_values(|p: Vec<u8>| p@), names(cs@)),
{
    let ghost gv = gs@.map_values(|g: GeneratedItem| g@);
    let ghost mv = m@.map_values(|p: Vec<u8>| p@);
    let mut t: Vec<u8> = Vec::new();
    if m.len() == 0 {
        push_bytes(&mut t, "#![allow(non_upper_case_globals, clippy::all)]\n".as_bytes());
    }
    let uses = module_uses_of(gs, m);
    push_uses(&mut t, &uses);
    let ghost o2 = t@;
    let ghost cv = names(cs@);
    let mut k: usize = 0;
    while k < cs.len()
        invariant
            k <= cs@.len(),
            cv == names(cs@),
            t@ == o2 + mod_lines(cv.take(k as int)),
        decreases cs@.len() - k,
    {
        assert(cv.take(k + 1).drop_last() =~= cv.take(k as int));
        push_bytes(&mut t, "mod ".as_bytes());
        push_bytes(&mut t, cs[k].as_slice());
        push_bytes(&mut t, ";\n".as_bytes());
        k = k + 1;
    }
    assert(cv.take(cv.len() as int) =~= cv);
    let ghost o3 = t@;
    let mut i: usize = 0;
    while i < gs.len()
        invariant
            i <= gs@.len(),
            gv == gs@.map_values(|g: GeneratedItem| g@),
            mv == m@.map_values(|p: Vec<u8>| p@),
            t@ == o3 + module_code(gv, mv, i as int),
        decreases gs@.len() - i,
    {
        if parts_equal(&gs[i].namespace, m) {
            push_bytes(&mut t, gs[i].text.as_slice());
        }
        i = i + 1;
    }
    t
}

/// The files that the generated items go into: one per module, that is per
/// namespace of an item and per prefix of one, the root included. Each
/// declares its child modules in order, and holds its items' imports and
/// code; a module with children is the `mod.rs` of its directory.
pub fn module_files(gs: &Vec<GeneratedItem>) -> (r: Vec<ModuleFile>)
    ensures
        files_ns(r@).no_duplicates(),
        forall|m: Seq<Seq<u8>>| files_ns(r@).contains(m) <==> is_module(gs@.map_values(|g: GeneratedItem| g@), m),
        forall|j: int| 0 <= j < r@.len() ==> file_ok(gs@.map_values(|g: GeneratedItem| g@), #[trigger] r@[j]),
{
    let ghost gv = gs@.map_values(|g: GeneratedItem| g@);
    let mods = module_namespaces(gs);
    let ghost ml = ns_list(mods@);
    let mut out: Vec<ModuleFile> = Vec::new();
    let mut j: usize = 0;
    while j < mods.len()
        invariant
            j <= mods@.len(),
            gv == gs@.map_values(|g: GeneratedItem| g@),
            ml == ns_list(mods@),
            ml.no_duplicates(),
            forall|m: Seq<Seq<u8>>| ml.contains(m) <==> is_module(gv, m),
            files_ns(out@) == ml.take(j as int),
            forall|x: int| 0 <= x < out@.len() ==> file_ok(gv, #[trigger] out@[x]),
        decreases mods@.len() - j,
    {
        let m = &mods[j];
        let children = children_of(&mods, m);
        let filename = filename_for_namespace(m, children.len() > 0);
        let text = module_text(gs, m, &children);
        let f = ModuleFile { namespace: copy_parts(m), children, filename, text };
        assert(file_ok(gv, f));
        let ghost o = out@;
        out.push(f);
        assert(files_ns(out@) =~= ml.take(j + 1)) by {
            assert(files_ns(out@) =~= files_ns(o).push(ml[j as int]));
        }
        j = j + 1;
    }
    assert(ml.take(mods@.len() as int) =~= ml);
    out
}

} // verus!
