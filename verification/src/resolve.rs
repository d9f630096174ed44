//! The name resolver: scope chains, opens and aliases, the prelude, global
//! tables, and the binding of every identifier occurrence to a resolution.
//!
//! Resolution walks the scope chain innermost outward. Local declarations
//! shadow everything; explicit opens shadow the prelude and unopened
//! globals; the prelude shadows unopened globals. Ambiguity among opens or
//! prelude namespaces is reported with the two smallest candidates, by open
//! span or by namespace name.

use vstd::prelude::*;
use crate::ast;
use crate::ast::{NodeId, ParamId};
use crate::fir::ItemId;
use crate::span::{Span, span_lt};

verus! {

/// Whether an item is available or declared but unimplemented.
#[derive(Clone, Copy, Debug, PartialEq, Eq, Structural)]
pub enum ItemStatus {
    Available,
    Unimplemented,
}

/// A primitive type name of the core namespace.
#[derive(Clone, Copy, Debug, PartialEq, Eq, Structural)]
pub enum Prim {
    BigInt,
    Bool,
    Double,
    Int,
    Pauli,
    Qubit,
    Range,
    Result,
    String,
}

/// A resolution: what a name occurrence denotes.
#[derive(Clone, Copy, Debug, PartialEq, Eq, Structural)]
pub enum Res {
    /// A global or local item.
    Item(ItemId, ItemStatus),
    /// A local variable.
    Local(NodeId),
    /// A type parameter of the enclosing callable.
    Param(ParamId),
    /// A primitive type.
    PrimTy(Prim),
    /// The unit type.
    UnitTy,
}

/// A resolution error; the resolver accumulates these and keeps going.
#[derive(Clone, Debug)]
pub enum Error {
    /// The name is found through two different opens; their spans are
    /// reported with the smaller span first.
    Ambiguous {
        name: String,
        first_open: String,
        second_open: String,
        name_span: Span,
        first_open_span: Span,
        second_open_span: Span,
    },
    /// The name is found in two prelude namespaces; the two smallest
    /// namespace names are reported.
    AmbiguousPrelude { name: String, candidate_a: String, candidate_b: String, span: Span },
    /// A second declaration of the name in the same namespace.
    Duplicate(String, String, Span),
    /// A name bound twice within one pattern.
    DuplicateBinding(String, Span),
    /// A second intrinsic callable of a name that must be globally unique.
    DuplicateIntrinsic(String, Span),
    /// The name is not in scope.
    NotFound(String, Span),
    /// The name is not in scope, but a dropped declaration of it exists;
    /// the dropped item's qualified name is reported.
    NotAvailable(String, String, Span),
    /// A use of an item declared unimplemented.
    Unimplemented(String, Span),
}

/// One explicit open: the namespace it brings in and the open's span.
#[derive(Clone, Debug)]
pub struct Open {
    pub namespace: String,
    pub span: Span,
}

/// What kind of scope a chain entry is.
#[derive(Debug)]
pub enum ScopeKind {
    Namespace(String),
    Callable,
    Block,
}

/// Which table a name is resolved against.
#[derive(Clone, Copy, Debug, PartialEq, Eq, Structural)]
pub enum NameKind {
    Ty,
    Term,
}

/// A name dropped by configuration: resolution failures mention it.
#[derive(Clone, Debug)]
pub struct TrackedName {
    pub name: String,
    pub namespace: String,
}

/// The first value of a key in a string-keyed list.
pub open spec fn sfind<V>(s: Seq<(Seq<char>, V)>, k: Seq<char>) -> Option<V>
    decreases s.len(),
{
    if s.len() == 0 {
        Option::None
    } else if s[0].0 == k {
        Option::Some(s[0].1)
    } else {
        sfind(s.drop_first(), k)
    }
}

/// The views of a string-keyed list.
pub open spec fn smap_view<V>(m: Seq<(String, V)>) -> Seq<(Seq<char>, V)> {
    Seq::new(m.len(), |i: int| (m[i].0@, m[i].1))
}

/// Setting a key: the existing entry is replaced in place, a new key is
/// appended.
pub open spec fn sset<V>(s: Seq<(Seq<char>, V)>, k: Seq<char>, v: V) -> Seq<(Seq<char>, V)>
    decreases s.len(),
{
    if s.len() == 0 {
        seq![(k, v)]
    } else if s[0].0 == k {
        s.update(0, (k, v))
    } else {
        seq![s[0]].add(sset(s.drop_first(), k, v))
    }
}

/// Finds a key's position in a string-keyed list.
fn smap_index<V>(m: &Vec<(String, V)>, k: &String) -> (r: Option<usize>)
    ensures
        match r {
            Option::Some(i) => i < m@.len() && m@[i as int].0@ == k@ && forall|j: int|
                0 <= j < i ==> (#[trigger] m@[j]).0@ != k@,
            Option::None => forall|i: int| 0 <= i < m@.len() ==> (#[trigger] m@[i]).0@ != k@,
        },
{
    let mut i: usize = 0;
    while i < m.len()
        invariant
            i <= m@.len(),
            forall|j: int| 0 <= j < i ==> (#[trigger] m@[j]).0@ != k@,
        decreases m@.len() - i,
    {
        if m[i].0.eq(k) {
            return Some(i);
        }
        i = i + 1;
    }
    None
}

/// A position holding the key, with no earlier one, is what the find
/// returns.
proof fn lemma_sfind_at<V>(s: Seq<(Seq<char>, V)>, idx: int, k: Seq<char>)
    requires
        0 <= idx < s.len(),
        s[idx].0 == k,
        forall|j: int| 0 <= j < idx ==> (#[trigger] s[j]).0 != k,
    ensures
        sfind(s, k) == Option::Some(s[idx].1),
    decreases s.len(),
{
    if idx > 0 {
        lemma_sfind_at(s.drop_first(), idx - 1, k);
    }
}

/// A list in which no position holds the key finds nothing.
proof fn lemma_sfind_none<V>(s: Seq<(Seq<char>, V)>, k: Seq<char>)
    requires
        forall|j: int| 0 <= j < s.len() ==> (#[trigger] s[j]).0 != k,
    ensures
        sfind(s, k) is None,
    decreases s.len(),
{
    if s.len() > 0 {
        lemma_sfind_none(s.drop_first(), k);
    }
}

/// Replacing the entry at the first position holding the key updates it in
/// place.
proof fn lemma_sset_at<V>(s: Seq<(Seq<char>, V)>, idx: int, k: Seq<char>, v: V)
    requires
        0 <= idx < s.len(),
        s[idx].0 == k,
        forall|j: int| 0 <= j < idx ==> (#[trigger] s[j]).0 != k,
    ensures
        sset(s, k, v) == s.update(idx, (k, v)),
    decreases s.len(),
{
    if idx == 0 {
    } else {
        lemma_sset_at(s.drop_first(), idx - 1, k, v);
        assert(seq![s[0]].add(s.drop_first().update(idx - 1, (k, v))) =~= s.update(
            idx,
            (k, v),
        ));
    }
}

/// Setting an absent key appends it.
proof fn lemma_sset_missing<V>(s: Seq<(Seq<char>, V)>, k: Seq<char>, v: V)
    requires
        forall|j: int| 0 <= j < s.len() ==> (#[trigger] s[j]).0 != k,
    ensures
        sset(s, k, v) == s.push((k, v)),
    decreases s.len(),
{
    if s.len() == 0 {
        assert(sset(s, k, v) =~= s.push((k, v)));
    } else {
        lemma_sset_missing(s.drop_first(), k, v);
        assert(seq![s[0]].add(s.drop_first().push((k, v))) =~= s.push((k, v)));
    }
}

/// Reads a key from a string-keyed list.
fn smap_get<'a, V>(m: &'a Vec<(String, V)>, k: &String) -> (r: Option<&'a V>)
    ensures
        match r {
            Option::Some(v) => sfind(smap_view(m@), k@) == Option::Some(*v),
            Option::None => sfind(smap_view(m@), k@) is None,
        },
{
    match smap_index(m, k) {
        Option::Some(i) => {
            proof {
                lemma_sfind_at(smap_view(m@), i as int, k@);
            }
            Some(&m[i].1)
        },
        Option::None => {
            proof {
                lemma_sfind_none(smap_view(m@), k@);
            }
            None
        },
    }
}

/// Writes a key into a string-keyed list, replacing an existing entry.
fn smap_set<V>(m: &mut Vec<(String, V)>, k: String, v: V)
    ensures
        smap_view(final(m)@) == sset(smap_view(old(m)@), k@, v),
{
    let ghost pre = smap_view(old(m)@);
    match smap_index(m, &k) {
        Option::Some(i) => {
            proof {
                lemma_sset_at(pre, i as int, k@, v);
            }
            m.set(i, (k, v));
            proof {
                assert(smap_view(m@) =~= pre.update(i as int, (k@, v)));
            }
        },
        Option::None => {
            proof {
                lemma_sset_missing(pre, k@, v);
            }
            m.push((k, v));
            proof {
                assert(smap_view(m@) =~= pre.push((k@, v)));
            }
        },
    }
}

/// Whether a key is present.
fn smap_contains<V>(m: &Vec<(String, V)>, k: &String) -> (r: bool)
    ensures
        r == (sfind(smap_view(m@), k@) is Some),
{
    match smap_get(m, k) {
        Option::Some(_) => true,
        Option::None => false,
    }
}

/// Lexicographic order on rendered names, by code point, shorter prefix
/// first.
pub open spec fn str_lt(a: Seq<char>, b: Seq<char>) -> bool
    decreases a.len(),
{
    if b.len() == 0 {
        false
    } else if a.len() == 0 {
        true
    } else if (a[0] as u32) < (b[0] as u32) {
        true
    } else if (a[0] as u32) > (b[0] as u32) {
        false
    } else {
        str_lt(a.drop_first(), b.drop_first())
    }
}

/// Compares two names lexicographically.
pub fn string_is_lt(a: &String, b: &String) -> (r: bool)
    ensures
        r == str_lt(a@, b@),
    decreases a@.len(),
{
    let an = a.as_str().unicode_len();
    let bn = b.as_str().unicode_len();
    let mut i: usize = 0;
    proof {
        assert(a@.skip(0) =~= a@);
        assert(b@.skip(0) =~= b@);
    }
    while i < an && i < bn
        invariant
            i <= an && i <= bn,
            an == a@.len() && bn == b@.len(),
            str_lt(a@, b@) == str_lt(a@.skip(i as int), b@.skip(i as int)),
        decreases an - i,
    {
        let ca = a.as_str().get_char(i);
        let cb = b.as_str().get_char(i);
        proof {
            assert(a@.skip(i as int)[0] == a@[i as int]);
            assert(b@.skip(i as int)[0] == b@[i as int]);
            assert(a@.skip(i as int).drop_first() =~= a@.skip(i as int + 1));
            assert(b@.skip(i as int).drop_first() =~= b@.skip(i as int + 1));
        }
        if (ca as u32) < (cb as u32) {
            return true;
        }
        if (ca as u32) > (cb as u32) {
            return false;
        }
        i = i + 1;
    }
    proof {
        if i >= bn {
            assert(b@.skip(i as int).len() == 0);
        } else {
            assert(a@.skip(i as int).len() == 0);
            assert(b@.skip(i as int).len() > 0);
        }
    }
    i < bn
}


/// The view of an open.
pub ghost struct OpenV {
    pub namespace: Seq<char>,
    pub span: Span,
}

impl View for Open {
    type V = OpenV;

    open spec fn view(&self) -> OpenV {
        OpenV { namespace: self.namespace@, span: self.span }
    }
}

/// A lexical scope of the resolver: its source extent, kind, opens by
/// alias, local type and term items, local variables with the offset from
/// which each is visible, and type parameters.
pub struct Scope {
    pub span: Span,
    pub kind: ScopeKind,
    pub opens: Vec<(String, Vec<Open>)>,
    pub tys: Vec<(String, ItemId)>,
    pub terms: Vec<(String, ItemId)>,
    pub vars: Vec<(String, (u32, NodeId))>,
    pub ty_vars: Vec<(String, ParamId)>,
}

impl Scope {
    /// A fresh scope of a kind over a span.
    pub fn new(kind: ScopeKind, span: Span) -> (r: Scope)
        ensures
            r.span == span,
            r.kind == kind,
            r.opens@.len() == 0,
            r.tys@.len() == 0,
            r.terms@.len() == 0,
            r.vars@.len() == 0,
            r.ty_vars@.len() == 0,
    {
        Scope {
            span,
            kind,
            opens: Vec::new(),
            tys: Vec::new(),
            terms: Vec::new(),
            vars: Vec::new(),
            ty_vars: Vec::new(),
        }
    }

    /// The local item table a name kind reads.
    pub open spec fn spec_item(self, kind: NameKind, name: Seq<char>) -> Option<ItemId> {
        match kind {
            NameKind::Ty => sfind(smap_view(self.tys@), name),
            NameKind::Term => sfind(smap_view(self.terms@), name),
        }
    }

    /// Reads a local item declaration.
    fn item(&self, kind: NameKind, name: &String) -> (r: Option<&ItemId>)
        ensures
            match r {
                Option::Some(id) => self.spec_item(kind, name@) == Option::Some(*id),
                Option::None => self.spec_item(kind, name@) is None,
            },
    {
        match kind {
            NameKind::Ty => smap_get(&self.tys, name),
            NameKind::Term => smap_get(&self.terms, name),
        }
    }
}

/// The global tables: types and terms by namespace and name, the known
/// namespaces, and the intrinsic names already taken.
pub struct GlobalScope {
    pub tys: Vec<(String, Vec<(String, Res)>)>,
    pub terms: Vec<(String, Vec<(String, Res)>)>,
    pub namespaces: Vec<String>,
    pub intrinsics: Vec<String>,
}

/// The views of one namespace's table.
pub open spec fn ns_table_view(t: Vec<(String, Res)>) -> Seq<(Seq<char>, Res)> {
    smap_view(t@)
}

impl GlobalScope {
    /// What a namespace-qualified lookup yields.
    pub open spec fn spec_get(self, kind: NameKind, namespace: Seq<char>, name: Seq<char>)
        -> Option<Res> {
        let table = match kind {
            NameKind::Ty => self.tys,
            NameKind::Term => self.terms,
        };
        match sfind(smap_view(table@), namespace) {
            Option::Some(items) => sfind(smap_view(items@), name),
            Option::None => Option::None,
        }
    }

    /// Looks a name up in a namespace.
    pub fn get(&self, kind: NameKind, namespace: &String, name: &String) -> (r: Option<&Res>)
        ensures
            match r {
                Option::Some(res) => self.spec_get(kind, namespace@, name@) == Option::Some(
                    *res,
                ),
                Option::None => self.spec_get(kind, namespace@, name@) is None,
            },
    {
        let table = match kind {
            NameKind::Ty => &self.tys,
            NameKind::Term => &self.terms,
        };
        match smap_get(table, namespace) {
            Option::Some(items) => smap_get(items, name),
            Option::None => None,
        }
    }
}

/// What a single scope offers an unqualified name: a visible variable or
/// type parameter first, then a local item, then — in a namespace scope —
/// that namespace's globals.
pub open spec fn spec_scope_locals(kind: NameKind, globals: GlobalScope, s: Scope, vars: bool,
    name: Seq<char>) -> Option<Res> {
    if vars && kind is Term && sfind(smap_view(s.vars@), name) is Some {
        Option::Some(Res::Local(sfind(smap_view(s.vars@), name)->Some_0.1))
    } else if vars && kind is Ty && sfind(smap_view(s.ty_vars@), name) is Some {
        Option::Some(Res::Param(sfind(smap_view(s.ty_vars@), name)->Some_0))
    } else if s.spec_item(kind, name) is Some {
        Option::Some(Res::Item(s.spec_item(kind, name)->Some_0, ItemStatus::Available))
    } else {
        match s.kind {
            ScopeKind::Namespace(ns) => globals.spec_get(kind, ns@, name),
            _ => Option::None,
        }
    }
}

/// Resolves an unqualified name against one scope. A local variable wins
/// over an item of the same name, items win over the enclosing namespace's
/// globals.
pub fn resolve_scope_locals(kind: NameKind, globals: &GlobalScope, scope: &Scope, vars: bool,
    name: &String) -> (r: Option<Res>)
    ensures
        r == spec_scope_locals(kind, *globals, *scope, vars, name@),
{
    if vars {
        match kind {
            NameKind::Term => {
                match smap_get(&scope.vars, name) {
                    Option::Some(p) => {
                        return Some(Res::Local(p.1));
                    },
                    Option::None => {},
                }
            },
            NameKind::Ty => {
                match smap_get(&scope.ty_vars, name) {
                    Option::Some(id) => {
                        return Some(Res::Param(*id));
                    },
                    Option::None => {},
                }
            },
        }
    }
    match scope.item(kind, name) {
        Option::Some(id) => {
            return Some(Res::Item(*id, ItemStatus::Available));
        },
        Option::None => {},
    }
    match &scope.kind {
        ScopeKind::Namespace(ns) => {
            match globals.get(kind, ns, name) {
                Option::Some(res) => Some(*res),
                Option::None => None,
            }
        },
        _ => None,
    }
}

/// The first value of a resolution key in a candidate list.
pub open spec fn rfind(s: Seq<(Res, OpenV)>, k: Res) -> Option<OpenV>
    decreases s.len(),
{
    if s.len() == 0 {
        Option::None
    } else if s[0].0 == k {
        Option::Some(s[0].1)
    } else {
        rfind(s.drop_first(), k)
    }
}

/// Recording a candidate: an existing resolution's open is replaced, so
/// the latest open wins; a new resolution is appended.
pub open spec fn rset(s: Seq<(Res, OpenV)>, k: Res, v: OpenV) -> Seq<(Res, OpenV)>
    decreases s.len(),
{
    if s.len() == 0 {
        seq![(k, v)]
    } else if s[0].0 == k {
        s.update(0, (k, v))
    } else {
        seq![s[0]].add(rset(s.drop_first(), k, v))
    }
}

/// The views of a candidate list.
pub open spec fn cands_view(c: Seq<(Res, Open)>) -> Seq<(Res, OpenV)> {
    Seq::new(c.len(), |i: int| (c[i].0, c[i].1@))
}

/// The candidates a run of opens contributes, processed in order: each
/// open whose namespace holds the name records its resolution, later opens
/// replacing earlier ones with the same resolution.
pub open spec fn spec_explicit_cands(kind: NameKind, globals: GlobalScope, opens: Seq<Open>,
    name: Seq<char>, acc: Seq<(Res, OpenV)>) -> Seq<(Res, OpenV)>
    decreases opens.len(),
{
    if opens.len() == 0 {
        acc
    } else {
        let next = match globals.spec_get(kind, opens[0].namespace@, name) {
            Option::Some(res) => rset(acc, res, opens[0]@),
            Option::None => acc,
        };
        spec_explicit_cands(kind, globals, opens.drop_first(), name, next)
    }
}

/// Records one candidate, the latest open winning for a repeated
/// resolution.
fn cands_insert(cands: &mut Vec<(Res, Open)>, res: Res, open: Open)
    ensures
        cands_view(final(cands)@) == rset(cands_view(old(cands)@), res, open@),
{
    let ghost pre = cands_view(old(cands)@);
    let mut i: usize = 0;
    while i < cands.len()
        invariant
            i <= cands@.len(),
            cands@ == old(cands)@,
            pre == cands_view(old(cands)@),
            forall|j: int| 0 <= j < i ==> (#[trigger] cands@[j]).0 != res,
        decreases cands@.len() - i,
    {
        if cands[i].0 == res {
            proof {
                assert(pre[i as int].0 == res);
                assert forall|j: int| 0 <= j < i implies (#[trigger] pre[j]).0 != res by {
                    assert(pre[j] == (cands@[j].0, cands@[j].1@));
                }
                lemma_rset_at(pre, i as int, res, open@);
            }
            cands.set(i, (res, open));
            proof {
                assert(cands_view(cands@) =~= pre.update(i as int, (res, open@)));
            }
            return ;
        }
        i = i + 1;
    }
    proof {
        assert forall|j: int| 0 <= j < pre.len() implies (#[trigger] pre[j]).0 != res by {
            assert(pre[j] == (cands@[j].0, cands@[j].1@));
        }
        lemma_rset_missing(pre, res, open@);
    }
    cands.push((res, open));
    proof {
        assert(cands_view(cands@) =~= pre.push((res, open@)));
    }
}

/// Replacing the entry at the first position holding a key updates it in
/// place.
proof fn lemma_rset_at(s: Seq<(Res, OpenV)>, idx: int, k: Res, v: OpenV)
    requires
        0 <= idx < s.len(),
        s[idx].0 == k,
        forall|j: int| 0 <= j < idx ==> (#[trigger] s[j]).0 != k,
    ensures
        rset(s, k, v) == s.update(idx, (k, v)),
    decreases s.len(),
{
    if idx > 0 {
        lemma_rset_at(s.drop_first(), idx - 1, k, v);
        assert(seq![s[0]].add(s.drop_first().update(idx - 1, (k, v))) =~= s.update(
            idx,
            (k, v),
        ));
    }
}

/// Recording an absent key appends it.
proof fn lemma_rset_missing(s: Seq<(Res, OpenV)>, k: Res, v: OpenV)
    requires
        forall|j: int| 0 <= j < s.len() ==> (#[trigger] s[j]).0 != k,
    ensures
        rset(s, k, v) == s.push((k, v)),
    decreases s.len(),
{
    if s.len() == 0 {
        assert(rset(s, k, v) =~= s.push((k, v)));
    } else {
        lemma_rset_missing(s.drop_first(), k, v);
        assert(seq![s[0]].add(s.drop_first().push((k, v))) =~= s.push((k, v)));
    }
}

/// Collects the candidates of a run of opens.
pub fn resolve_explicit_opens(kind: NameKind, globals: &GlobalScope, opens: &Vec<Open>, name:
    &String) -> (r: Vec<(Res, Open)>)
    ensures
        cands_view(r@) == spec_explicit_cands(
            kind,
            *globals,
            opens@,
            name@,
            Seq::<(Res, OpenV)>::empty(),
        ),
{
    let mut cands: Vec<(Res, Open)> = Vec::new();
    let mut i: usize = 0;
    proof {
        assert(opens@.skip(0) =~= opens@);
        assert(cands_view(cands@) =~= Seq::<(Res, OpenV)>::empty());
    }
    while i < opens.len()
        invariant
            i <= opens@.len(),
            spec_explicit_cands(
                kind,
                *globals,
                opens@,
                name@,
                Seq::<(Res, OpenV)>::empty(),
            ) == spec_explicit_cands(
                kind,
                *globals,
                opens@.skip(i as int),
                name@,
                cands_view(cands@),
            ),
        decreases opens@.len() - i,
    {
        proof {
            assert(opens@.skip(i as int)[0] == opens@[i as int]);
            assert(opens@.skip(i as int).drop_first() =~= opens@.skip(i as int + 1));
        }
        let open = &opens[i];
        match globals.get(kind, &open.namespace, name) {
            Option::Some(res) => {
                let copied = Open { namespace: open.namespace.clone(), span: open.span };
                cands_insert(&mut cands, *res, copied);
            },
            Option::None => {},
        }
        i = i + 1;
    }
    proof {
        assert(opens@.skip(opens@.len() as int) =~= Seq::<Open>::empty());
    }
    cands
}


/// The namespaces every file implicitly opens.
pub open spec fn spec_prelude() -> Seq<Seq<char>> {
    seq![
        ("Microsoft.Quantum.Canon")@,
        ("Microsoft.Quantum.Core")@,
        ("Microsoft.Quantum.Intrinsic")@,
    ]
}

/// Builds the prelude namespace list.
pub fn prelude_namespaces() -> (r: Vec<String>)
    ensures
        r@.len() == 3,
        r@[0]@ == spec_prelude()[0],
        r@[1]@ == spec_prelude()[1],
        r@[2]@ == spec_prelude()[2],
{
    let mut out: Vec<String> = Vec::new();
    let mut a = String::new();
    crate::val::str_push(&mut a, "Microsoft.Quantum.Canon");
    out.push(a);
    let mut b = String::new();
    crate::val::str_push(&mut b, "Microsoft.Quantum.Core");
    out.push(b);
    let mut c = String::new();
    crate::val::str_push(&mut c, "Microsoft.Quantum.Intrinsic");
    out.push(c);
    out
}

/// The views of a prelude candidate list.
pub open spec fn ns_cands_view(c: Seq<(Res, String)>) -> Seq<(Res, Seq<char>)> {
    Seq::new(c.len(), |i: int| (c[i].0, c[i].1@))
}

/// The first value of a resolution key in a keyed list.
pub open spec fn kfind<V>(s: Seq<(Res, V)>, k: Res) -> Option<V>
    decreases s.len(),
{
    if s.len() == 0 {
        Option::None
    } else if s[0].0 == k {
        Option::Some(s[0].1)
    } else {
        kfind(s.drop_first(), k)
    }
}

/// Recording under a resolution key, the latest value winning.
pub open spec fn kset<V>(s: Seq<(Res, V)>, k: Res, v: V) -> Seq<(Res, V)>
    decreases s.len(),
{
    if s.len() == 0 {
        seq![(k, v)]
    } else if s[0].0 == k {
        s.update(0, (k, v))
    } else {
        seq![s[0]].add(kset(s.drop_first(), k, v))
    }
}

/// Replacing the entry at the first position holding a key updates it in
/// place.
proof fn lemma_kset_at<V>(s: Seq<(Res, V)>, idx: int, k: Res, v: V)
    requires
        0 <= idx < s.len(),
        s[idx].0 == k,
        forall|j: int| 0 <= j < idx ==> (#[trigger] s[j]).0 != k,
    ensures
        kset(s, k, v) == s.update(idx, (k, v)),
    decreases s.len(),
{
    if idx > 0 {
        lemma_kset_at(s.drop_first(), idx - 1, k, v);
        assert(seq![s[0]].add(s.drop_first().update(idx - 1, (k, v))) =~= s.update(
            idx,
            (k, v),
        ));
    }
}

/// Recording an absent key appends it.
proof fn lemma_kset_missing<V>(s: Seq<(Res, V)>, k: Res, v: V)
    requires
        forall|j: int| 0 <= j < s.len() ==> (#[trigger] s[j]).0 != k,
    ensures
        kset(s, k, v) == s.push((k, v)),
    decreases s.len(),
{
    if s.len() == 0 {
        assert(kset(s, k, v) =~= s.push((k, v)));
    } else {
        lemma_kset_missing(s.drop_first(), k, v);
        assert(seq![s[0]].add(s.drop_first().push((k, v))) =~= s.push((k, v)));
    }
}

/// The candidates the prelude contributes: each prelude namespace holding
/// the name records its resolution, with the namespace it came from.
pub open spec fn spec_implicit_cands(kind: NameKind, globals: GlobalScope, namespaces: Seq<
    Seq<char>,
>, name: Seq<char>, acc: Seq<(Res, Seq<char>)>) -> Seq<(Res, Seq<char>)>
    decreases namespaces.len(),
{
    if namespaces.len() == 0 {
        acc
    } else {
        let next = match globals.spec_get(kind, namespaces[0], name) {
            Option::Some(res) => kset(acc, res, namespaces[0]),
            Option::None => acc,
        };
        spec_implicit_cands(kind, globals, namespaces.drop_first(), name, next)
    }
}

/// Collects the prelude's candidates for a name.
pub fn resolve_implicit_opens(kind: NameKind, globals: &GlobalScope, namespaces: &Vec<String>,
    name: &String) -> (r: Vec<(Res, String)>)
    ensures
        ns_cands_view(r@) == spec_implicit_cands(
            kind,
            *globals,
            Seq::new(namespaces@.len(), |i: int| namespaces@[i]@),
            name@,
            Seq::<(Res, Seq<char>)>::empty(),
        ),
{
    let ghost nss = Seq::new(namespaces@.len(), |i: int| namespaces@[i]@);
    let mut cands: Vec<(Res, String)> = Vec::new();
    let mut i: usize = 0;
    proof {
        assert(nss.skip(0) =~= nss);
        assert(ns_cands_view(cands@) =~= Seq::<(Res, Seq<char>)>::empty());
    }
    while i < namespaces.len()
        invariant
            i <= namespaces@.len(),
            nss == Seq::new(namespaces@.len(), |k: int| namespaces@[k]@),
            spec_implicit_cands(
                kind,
                *globals,
                nss,
                name@,
                Seq::<(Res, Seq<char>)>::empty(),
            ) == spec_implicit_cands(
                kind,
                *globals,
                nss.skip(i as int),
                name@,
                ns_cands_view(cands@),
            ),
        decreases namespaces@.len() - i,
    {
        proof {
            assert(nss.skip(i as int)[0] == nss[i as int]);
            assert(nss.skip(i as int).drop_first() =~= nss.skip(i as int + 1));
        }
        match globals.get(kind, &namespaces[i], name) {
            Option::Some(res) => {
                let ghost pre = ns_cands_view(cands@);
                let resv = *res;
                let nsname = namespaces[i].clone();
                let mut j: usize = 0;
                let mut replaced = false;
                while j < cands.len() && !replaced
                    invariant
                        j <= cands@.len(),
                        pre == ns_cands_view(cands@) || replaced,
                        !replaced ==> pre == ns_cands_view(cands@) && (forall|l: int|
                            0 <= l < j ==> (#[trigger] pre[l]).0 != resv),
                        replaced ==> ns_cands_view(cands@) == kset(pre, resv, nsname@),
                    decreases cands@.len() - j + (if replaced { 0int } else { 1int }),
                {
                    if cands[j].0 == resv {
                        proof {
                            assert(pre[j as int].0 == resv);
                            lemma_kset_at(pre, j as int, resv, nsname@);
                        }
                        let nsname2 = nsname.clone();
                        cands.set(j, (resv, nsname2));
                        proof {
                            assert(ns_cands_view(cands@) =~= pre.update(
                                j as int,
                                (resv, nsname@),
                            ));
                        }
                        replaced = true;
                    } else {
                        j = j + 1;
                    }
                }
                if !replaced {
                    proof {
                        assert forall|l: int| 0 <= l < pre.len() implies (#[trigger] pre[l]).0
                            != resv by {}
                        lemma_kset_missing(pre, resv, nsname@);
                    }
                    cands.push((resv, nsname));
                    proof {
                        assert(ns_cands_view(cands@) =~= pre.push((resv, nsname@)));
                    }
                }
            },
            Option::None => {},
        }
        i = i + 1;
    }
    proof {
        assert(nss.skip(namespaces@.len() as int) =~= Seq::<Seq<char>>::empty());
    }
    cands
}


/// The scopes the resolver has entered, outermost first; the chain of
/// active scopes indexes into it.
pub struct Locals {
    pub scopes: Vec<Scope>,
}

impl Locals {
    /// An empty scope store.
    pub fn new_locals() -> (r: Locals)
        ensures
            r.scopes@.len() == 0,
    {
        Locals { scopes: Vec::new() }
    }

    /// Retains a scope and returns its id.
    pub fn push_scope(&mut self, s: Scope) -> (r: usize)
        ensures
            final(self).scopes@ == old(self).scopes@.push(s),
            r == old(self).scopes@.len(),
    {
        let id = self.scopes.len();
        self.scopes.push(s);
        id
    }
}

/// The chain's scopes innermost first.
pub open spec fn chain_scopes(locals: Locals, chain: Seq<usize>) -> Seq<Scope> {
    Seq::new(chain.len(), |i: int| locals.scopes@[chain[chain.len() - 1 - i] as int])
}

/// What the scope walk ends with: an early local hit, or the candidates of
/// the innermost scope whose opens matched.
pub ghost enum WalkOut {
    Found(Res),
    Cands(Seq<(Res, OpenV)>),
}

/// Walks the chain innermost outward: local declarations return at once
/// (for an unqualified name); the first scope whose opens yield candidates
/// stops the climb; crossing a callable scope hides outer variables.
pub open spec fn spec_walk(kind: NameKind, globals: GlobalScope, scopes: Seq<Scope>, name: Seq<
    char,
>, ns_key: Seq<char>, vars: bool) -> WalkOut
    decreases scopes.len(),
{
    if scopes.len() == 0 {
        WalkOut::Cands(Seq::<(Res, OpenV)>::empty())
    } else {
        let s = scopes[0];
        if ns_key.len() == 0 && spec_scope_locals(kind, globals, s, vars, name) is Some {
            WalkOut::Found(spec_scope_locals(kind, globals, s, vars, name)->Some_0)
        } else {
            let cands = match sfind(smap_view(s.opens@), ns_key) {
                Option::Some(opens) => spec_explicit_cands(
                    kind,
                    globals,
                    opens@,
                    name,
                    Seq::<(Res, OpenV)>::empty(),
                ),
                Option::None => Seq::<(Res, OpenV)>::empty(),
            };
            if cands.len() > 0 {
                WalkOut::Cands(cands)
            } else {
                spec_walk(
                    kind,
                    globals,
                    scopes.drop_first(),
                    name,
                    ns_key,
                    vars && !(s.kind is Callable),
                )
            }
        }
    }
}

/// The position of the first candidate with the smallest open span.
pub open spec fn min_open_idx(s: Seq<(Res, OpenV)>) -> int
    decreases s.len(),
{
    if s.len() <= 1 {
        0
    } else {
        let m = 1 + min_open_idx(s.drop_first());
        if span_lt(s[m].1.span, s[0].1.span) {
            m
        } else {
            0
        }
    }
}

/// The position of the first candidate with the smallest namespace name.
pub open spec fn min_ns_idx(s: Seq<(Res, Seq<char>)>) -> int
    decreases s.len(),
{
    if s.len() <= 1 {
        0
    } else {
        let m = 1 + min_ns_idx(s.drop_first());
        if str_lt(s[m].1, s[0].1) {
            m
        } else {
            0
        }
    }
}

/// Whether a resolution names an unimplemented item.
pub open spec fn is_unimpl(r: Res) -> bool {
    r matches Res::Item(_, ItemStatus::Unimplemented)
}

/// The candidates with unimplemented items removed.
pub open spec fn filter_impl(s: Seq<(Res, OpenV)>) -> Seq<(Res, OpenV)>
    decreases s.len(),
{
    if s.len() == 0 {
        s
    } else if is_unimpl(s[0].0) {
        filter_impl(s.drop_first())
    } else {
        seq![s[0]].add(filter_impl(s.drop_first()))
    }
}

/// What resolving a name against a chain yields: a local hit; else
/// candidates from opens; else — unqualified — the prelude, ambiguity
/// reported over the two smallest namespaces; else the global tables;
/// multiple open candidates drop unimplemented items and any ambiguity
/// left reports the two smallest open spans.
pub open spec fn spec_resolve(kind: NameKind, globals: GlobalScope, scopes: Seq<Scope>, name:
    Seq<char>, name_span: Span, ns_key: Seq<char>) -> Result<Res, Error> {
    match spec_walk(kind, globals, scopes, name, ns_key, true) {
        WalkOut::Found(res) => Result::Ok(res),
        WalkOut::Cands(cands0) => {
            let pcands = spec_implicit_cands(
                kind,
                globals,
                spec_prelude(),
                name,
                Seq::<(Res, Seq<char>)>::empty(),
            );
            if cands0.len() == 0 && ns_key.len() == 0 && pcands.len() > 1 {
                let j1 = min_ns_idx(pcands);
                let rest = pcands.remove(j1);
                let j2 = min_ns_idx(rest);
                Result::Err(
                    Error::AmbiguousPrelude {
                        name: arbitrary(),
                        candidate_a: arbitrary(),
                        candidate_b: arbitrary(),
                        span: name_span,
                    },
                )
            } else if cands0.len() == 0 && ns_key.len() == 0 && pcands.len() == 1 {
                Result::Ok(pcands[0].0)
            } else if cands0.len() == 0 {
                match globals.spec_get(kind, ns_key, name) {
                    Option::Some(res) => Result::Ok(res),
                    Option::None => Result::Err(Error::NotFound(arbitrary(), name_span)),
                }
            } else {
                let f = if cands0.len() > 1 {
                    filter_impl(cands0)
                } else {
                    cands0
                };
                if f.len() > 1 {
                    Result::Err(
                        Error::Ambiguous {
                            name: arbitrary(),
                            first_open: arbitrary(),
                            second_open: arbitrary(),
                            name_span,
                            first_open_span: f[min_open_idx(f)].1.span,
                            second_open_span: f.remove(min_open_idx(f))[min_open_idx(
                                f.remove(min_open_idx(f)),
                            )].1.span,
                        },
                    )
                } else if f.len() == 1 {
                    Result::Ok(f[0].0)
                } else {
                    Result::Err(Error::NotFound(arbitrary(), name_span))
                }
            }
        },
    }
}

/// Which outcome shape resolution takes, and with which payload views;
/// string payloads are compared through their views.
pub open spec fn resolve_matches(r: Result<Res, Error>, s: Result<Res, Error>, name: Seq<char>,
    scopes: Seq<Scope>, kind: NameKind, globals: GlobalScope, ns_key: Seq<char>) -> bool {
    match (r, s) {
        (Result::Ok(a), Result::Ok(b)) => a == b,
        (Result::Err(a), Result::Err(b)) => match (a, b) {
            (
                Error::Ambiguous {
                    name: n1,
                    first_open: f1,
                    second_open: s1,
                    name_span: sp1,
                    first_open_span: fs1,
                    second_open_span: ss1,
                },
                Error::Ambiguous {
                    name_span: sp2,
                    first_open_span: fs2,
                    second_open_span: ss2,
                    ..
                },
            ) => n1@ == name && sp1 == sp2 && fs1 == fs2 && ss1 == ss2 && (spec_walk(
                kind,
                globals,
                scopes,
                name,
                ns_key,
                true,
            ) matches WalkOut::Cands(c0) && ({
                let f = if c0.len() > 1 {
                    filter_impl(c0)
                } else {
                    c0
                };
                let i1 = min_open_idx(f);
                let rest = f.remove(i1);
                let i2 = min_open_idx(rest);
                f1@ == f[i1].1.namespace && s1@ == rest[i2].1.namespace
            })),
            (
                Error::AmbiguousPrelude { name: n1, candidate_a: a1, candidate_b: b1, span: sp1 },
                Error::AmbiguousPrelude { span: sp2, .. },
            ) => n1@ == name && sp1 == sp2 && ({
                let pcands = spec_implicit_cands(
                    kind,
                    globals,
                    spec_prelude(),
                    name,
                    Seq::<(Res, Seq<char>)>::empty(),
                );
                let j1 = min_ns_idx(pcands);
                let rest = pcands.remove(j1);
                let j2 = min_ns_idx(rest);
                a1@ == pcands[j1].1 && b1@ == rest[j2].1
            }),
            (Error::NotFound(n1, sp1), Error::NotFound(_, sp2)) => n1@ == name && sp1 == sp2,
            _ => false,
        },
        _ => false,
    }
}


/// Copies an open.
fn open_copy(o: &Open) -> (r: Open)
    ensures
        r@ == o@,
{
    Open { namespace: o.namespace.clone(), span: o.span }
}

/// The position of the first candidate with the smallest open span.
fn min_open_index(cands: &Vec<(Res, Open)>) -> (r: usize)
    requires
        cands@.len() >= 1,
    ensures
        r < cands@.len(),
        r as int == min_open_idx(cands_view(cands@)),
{
    let ghost cv = cands_view(cands@);
    let n = cands.len();
    let mut best: usize = n - 1;
    let mut i: usize = n - 1;
    proof {
        assert(cv.skip(n as int - 1).len() == 1);
    }
    while i > 0
        invariant
            i < n,
            i <= best < n,
            n == cands@.len(),
            cv == cands_view(cands@),
            min_open_idx(cv.skip(i as int)) == best - i,
        decreases i,
    {
        i = i - 1;
        proof {
            assert(cv.skip(i as int)[0] == cv[i as int]);
            assert(cv.skip(i as int).drop_first() =~= cv.skip(i as int + 1));
            assert(cv.skip(i as int)[best - i] == cv[best as int]);
        }
        if crate::span::span_is_lt(cands[best].1.span, cands[i].1.span) {
        } else {
            best = i;
        }
    }
    proof {
        assert(cv.skip(0) =~= cv);
    }
    best
}

/// The position of the first candidate with the smallest namespace name.
fn min_ns_index(cands: &Vec<(Res, String)>) -> (r: usize)
    requires
        cands@.len() >= 1,
    ensures
        r < cands@.len(),
        r as int == min_ns_idx(ns_cands_view(cands@)),
{
    let ghost cv = ns_cands_view(cands@);
    let n = cands.len();
    let mut best: usize = n - 1;
    let mut i: usize = n - 1;
    proof {
        assert(cv.skip(n as int - 1).len() == 1);
    }
    while i > 0
        invariant
            i < n,
            i <= best < n,
            n == cands@.len(),
            cv == ns_cands_view(cands@),
            min_ns_idx(cv.skip(i as int)) == best - i,
        decreases i,
    {
        i = i - 1;
        proof {
            assert(cv.skip(i as int)[0] == cv[i as int]);
            assert(cv.skip(i as int).drop_first() =~= cv.skip(i as int + 1));
            assert(cv.skip(i as int)[best - i] == cv[best as int]);
        }
        if string_is_lt(&cands[best].1, &cands[i].1) {
        } else {
            best = i;
        }
    }
    proof {
        assert(cv.skip(0) =~= cv);
    }
    best
}

/// Copies the candidate list without one position.
fn remove_open_at(cands: &Vec<(Res, Open)>, idx: usize) -> (r: Vec<(Res, Open)>)
    requires
        idx < cands@.len(),
    ensures
        cands_view(r@) == cands_view(cands@).remove(idx as int),
{
    let mut out: Vec<(Res, Open)> = Vec::new();
    let mut i: usize = 0;
    proof {
        assert(cands_view(out@) =~= cands_view(cands@).remove(idx as int).take(0));
    }
    while i < cands.len()
        invariant
            i <= cands@.len(),
            idx < cands@.len(),
            out@.len() == if i <= idx {
                i as int
            } else {
                i - 1
            },
            cands_view(out@) == cands_view(cands@).remove(idx as int).take(out@.len() as int),
        decreases cands@.len() - i,
    {
        if i != idx {
            out.push((cands[i].0, open_copy(&cands[i].1)));
            proof {
                let sv = cands_view(cands@);
                let rv = sv.remove(idx as int);
                let j = out@.len() - 1;
                assert(cands_view(out@)[j] == (cands@[i as int].0, cands@[i as int].1@));
                if i < idx {
                    assert(rv[j] == sv[j]);
                } else {
                    assert(rv[j] == sv[j + 1]);
                }
                assert(cands_view(out@) =~= rv.take(out@.len() as int));
            }
        }
        i = i + 1;
    }
    proof {
        assert(cands_view(cands@).remove(idx as int).take(out@.len() as int) =~= cands_view(
            cands@,
        ).remove(idx as int));
    }
    out
}

/// Copies the prelude candidate list without one position.
fn remove_ns_at(cands: &Vec<(Res, String)>, idx: usize) -> (r: Vec<(Res, String)>)
    requires
        idx < cands@.len(),
    ensures
        ns_cands_view(r@) == ns_cands_view(cands@).remove(idx as int),
{
    let mut out: Vec<(Res, String)> = Vec::new();
    let mut i: usize = 0;
    proof {
        assert(ns_cands_view(out@) =~= ns_cands_view(cands@).remove(idx as int).take(0));
    }
    while i < cands.len()
        invariant
            i <= cands@.len(),
            idx < cands@.len(),
            out@.len() == if i <= idx {
                i as int
            } else {
                i - 1
            },
            ns_cands_view(out@) == ns_cands_view(cands@).remove(idx as int).take(
                out@.len() as int,
            ),
        decreases cands@.len() - i,
    {
        if i != idx {
            out.push((cands[i].0, cands[i].1.clone()));
            proof {
                let sv = ns_cands_view(cands@);
                let rv = sv.remove(idx as int);
                let j = out@.len() - 1;
                assert(ns_cands_view(out@)[j] == (cands@[i as int].0, cands@[i as int].1@));
                if i < idx {
                    assert(rv[j] == sv[j]);
                } else {
                    assert(rv[j] == sv[j + 1]);
                }
                assert(ns_cands_view(out@) =~= rv.take(out@.len() as int));
            }
        }
        i = i + 1;
    }
    proof {
        assert(ns_cands_view(cands@).remove(idx as int).take(out@.len() as int)
            =~= ns_cands_view(cands@).remove(idx as int));
    }
    out
}

/// Keeps only the candidates whose items are implemented.
fn filter_implemented(cands: &Vec<(Res, Open)>) -> (r: Vec<(Res, Open)>)
    ensures
        cands_view(r@) == filter_impl(cands_view(cands@)),
{
    let ghost cv = cands_view(cands@);
    let mut out: Vec<(Res, Open)> = Vec::new();
    let mut i: usize = 0;
    proof {
        assert(cv.skip(0) =~= cv);
        assert(cands_view(out@) =~= Seq::<(Res, OpenV)>::empty());
    }
    while i < cands.len()
        invariant
            i <= cands@.len(),
            cv == cands_view(cands@),
            filter_impl(cv) == cands_view(out@).add(filter_impl(cv.skip(i as int))),
        decreases cands@.len() - i,
    {
        proof {
            assert(cv.skip(i as int)[0] == cv[i as int]);
            assert(cv.skip(i as int).drop_first() =~= cv.skip(i as int + 1));
        }
        let keep = match cands[i].0 {
            Res::Item(_, ItemStatus::Unimplemented) => false,
            _ => true,
        };
        if keep {
            let ghost pre = cands_view(out@);
            out.push((cands[i].0, open_copy(&cands[i].1)));
            proof {
                assert(cands_view(out@) =~= pre.push(cv[i as int]));
                assert(pre.push(cv[i as int]).add(filter_impl(cv.skip(i as int + 1)))
                    =~= pre.add(
                    seq![cv[i as int]].add(filter_impl(cv.skip(i as int + 1))),
                ));
            }
        }
        i = i + 1;
    }
    proof {
        assert(cv.skip(cands@.len() as int) =~= Seq::<(Res, OpenV)>::empty());
        assert(cands_view(out@).add(filter_impl(cv.skip(cands@.len() as int)))
            =~= cands_view(out@));
    }
    out
}

/// The sole element of a list, if it has exactly one.
pub fn single<T>(xs: Vec<T>) -> (r: Option<T>)
    ensures
        xs@.len() == 1 ==> (r matches Option::Some(x) && x == xs@[0]),
        xs@.len() != 1 ==> r is None,
{
    if xs.len() == 1 {
        let mut xs = xs;
        xs.pop()
    } else {
        None
    }
}

/// Resolves a name occurrence against the scope chain, as
/// [`spec_resolve`] describes: the outcome shape, the resolution, the
/// reported name and namespaces, and every span are pinned.
pub fn resolve(kind: NameKind, globals: &GlobalScope, locals: &Locals, chain: &Vec<usize>, name:
    &ast::Ident, namespace: &Option<ast::Ident>) -> (r: Result<Res, Error>)
    requires
        forall|i: int| 0 <= i < chain@.len() ==> (#[trigger] chain@[i]) < locals.scopes@.len(),
    ensures
        resolve_matches(
            r,
            spec_resolve(
                kind,
                *globals,
                chain_scopes(*locals, chain@),
                name.name@,
                name.span,
                match namespace {
                    Option::Some(ns) => ns.name@,
                    Option::None => Seq::<char>::empty(),
                },
            ),
            name.name@,
            chain_scopes(*locals, chain@),
            kind,
            *globals,
            match namespace {
                Option::Some(ns) => ns.name@,
                Option::None => Seq::<char>::empty(),
            },
        ),
{
    let ns_key: String = match namespace {
        Option::Some(ns) => ns.name.clone(),
        Option::None => String::new(),
    };
    let ghost nsv = ns_key@;
    let ghost scopes = chain_scopes(*locals, chain@);
    let unqualified = ns_key.as_str().unicode_len() == 0;
    let mut vars = true;
    let mut cands: Vec<(Res, Open)> = Vec::new();
    let mut found: Option<Res> = None;
    let n = chain.len();
    let mut i: usize = n;
    proof {
        assert(scopes.skip(0) =~= scopes);
    }
    while i > 0 && found.is_none() && cands.len() == 0
        invariant
            i <= n,
            n == chain@.len(),
            forall|l: int| 0 <= l < chain@.len() ==> (#[trigger] chain@[l]) < locals.scopes@.len(),
            scopes == chain_scopes(*locals, chain@),
            nsv == ns_key@,
            unqualified == (nsv.len() == 0),
            found is None && cands@.len() == 0 ==> spec_walk(
                kind,
                *globals,
                scopes,
                name.name@,
                nsv,
                true,
            ) == spec_walk(kind, *globals, scopes.skip(n - i), name.name@, nsv, vars),
            found matches Option::Some(res) ==> spec_walk(
                kind,
                *globals,
                scopes,
                name.name@,
                nsv,
                true,
            ) == WalkOut::Found(res),
            cands@.len() > 0 ==> spec_walk(kind, *globals, scopes, name.name@, nsv, true)
                == WalkOut::Cands(cands_view(cands@)),
        decreases i,
    {
        i = i - 1;
        let ghost k = n - 1 - i;
        proof {
            assert(scopes.skip(k as int)[0] == scopes[k as int]);
            assert(scopes[k as int] == locals.scopes@[chain@[i as int] as int]);
            assert(scopes.skip(k as int).drop_first() =~= scopes.skip(k as int + 1));
        }
        let scope = &locals.scopes[chain[i]];
        if unqualified {
            match resolve_scope_locals(kind, globals, scope, vars, &name.name) {
                Option::Some(res) => {
                    found = Some(res);
                },
                Option::None => {},
            }
        }
        if found.is_none() {
            match smap_get(&scope.opens, &ns_key) {
                Option::Some(opens) => {
                    cands = resolve_explicit_opens(kind, globals, opens, &name.name);
                },
                Option::None => {},
            }
            if matches!(scope.kind, ScopeKind::Callable) {
                vars = false;
            }
        }
    }
    proof {
        if found is None && cands@.len() == 0 {
            if i == 0 {
                assert(scopes.skip(n as int) =~= Seq::<Scope>::empty());
            }
        }
    }
    match found {
        Option::Some(res) => {
            return Ok(res);
        },
        Option::None => {},
    }
    if cands.len() == 0 && unqualified {
        let prelude = prelude_namespaces();
        let pcands = resolve_implicit_opens(kind, globals, &prelude, &name.name);
        proof {
            assert(Seq::new(prelude@.len(), |l: int| prelude@[l]@) =~= spec_prelude());
        }
        if pcands.len() > 1 {
            let j1 = min_ns_index(&pcands);
            let candidate_a = pcands[j1].1.clone();
            let rest = remove_ns_at(&pcands, j1);
            proof {
                assert(rest@.len() == ns_cands_view(rest@).len());
                assert(rest@.len() == pcands@.len() - 1);
            }
            let j2 = min_ns_index(&rest);
            let candidate_b = rest[j2].1.clone();
            return Err(
                Error::AmbiguousPrelude {
                    name: name.name.clone(),
                    candidate_a,
                    candidate_b,
                    span: name.span,
                },
            );
        }
        if pcands.len() == 1 {
            return Ok(pcands[0].0);
        }
    }
    if cands.len() == 0 {
        match globals.get(kind, &ns_key, &name.name) {
            Option::Some(res) => {
                return Ok(*res);
            },
            Option::None => {
                return Err(Error::NotFound(name.name.clone(), name.span));
            },
        }
    }
    let filtered = if cands.len() > 1 {
        filter_implemented(&cands)
    } else {
        cands
    };
    if filtered.len() > 1 {
        let i1 = min_open_index(&filtered);
        let first_open = filtered[i1].1.namespace.clone();
        let first_open_span = filtered[i1].1.span;
        let rest = remove_open_at(&filtered, i1);
        proof {
            assert(rest@.len() == cands_view(rest@).len());
            assert(rest@.len() == filtered@.len() - 1);
        }
        let i2 = min_open_index(&rest);
        let second_open = rest[i2].1.namespace.clone();
        let second_open_span = rest[i2].1.span;
        Err(
            Error::Ambiguous {
                name: name.name.clone(),
                first_open,
                second_open,
                name_span: name.span,
                first_open_span,
                second_open_span,
            },
        )
    } else if filtered.len() == 1 {
        Ok(filtered[0].0)
    } else {
        Err(Error::NotFound(name.name.clone(), name.span))
    }
}


/// The first value of a node key in a names table.
pub open spec fn nfind(s: Seq<(NodeId, Res)>, k: NodeId) -> Option<Res>
    decreases s.len(),
{
    if s.len() == 0 {
        Option::None
    } else if s[0].0 == k {
        Option::Some(s[0].1)
    } else {
        nfind(s.drop_first(), k)
    }
}

/// The table binding every resolved name occurrence, one resolution per
/// node.
pub struct Names {
    pub table: Vec<(NodeId, Res)>,
}

impl Names {
    /// An empty names table.
    pub fn new_names() -> (r: Names)
        ensures
            r.table@.len() == 0,
    {
        Names { table: Vec::new() }
    }

    /// Reads a node's resolution.
    pub fn get(&self, id: NodeId) -> (r: Option<&Res>)
        ensures
            match r {
                Option::Some(res) => nfind(self.table@, id) == Option::Some(*res),
                Option::None => nfind(self.table@, id) is None,
            },
    {
        let mut i: usize = 0;
        while i < self.table.len()
            invariant
                i <= self.table@.len(),
                forall|j: int| 0 <= j < i ==> (#[trigger] self.table@[j]).0 != id,
            decreases self.table@.len() - i,
        {
            if self.table[i].0 == id {
                proof {
                    lemma_nfind_at(self.table@, i as int, id);
                }
                return Some(&self.table[i].1);
            }
            i = i + 1;
        }
        proof {
            lemma_nfind_none(self.table@, id);
        }
        None
    }

    /// Records a node's resolution, replacing an earlier one.
    pub fn insert(&mut self, id: NodeId, res: Res)
        ensures
            nfind(final(self).table@, id) == Option::<Res>::Some(res),
            forall|id2: NodeId|
                id2 != id ==> #[trigger] nfind(final(self).table@, id2) == nfind(
                    old(self).table@,
                    id2,
                ),
    {
        let ghost pre = self.table@;
        let mut i: usize = 0;
        while i < self.table.len()
            invariant
                i <= self.table@.len(),
                self.table@ == pre,
                pre == old(self).table@,
                forall|j: int| 0 <= j < i ==> (#[trigger] pre[j]).0 != id,
            decreases self.table@.len() - i,
        {
            if self.table[i].0 == id {
                self.table.set(i, (id, res));
                proof {
                    assert(self.table@ == pre.update(i as int, (id, res)));
                    lemma_nfind_at(self.table@, i as int, id);
                    assert forall|id2: NodeId| id2 != id implies #[trigger] nfind(
                        self.table@,
                        id2,
                    ) == nfind(pre, id2) by {
                        lemma_nfind_update_other(pre, i as int, id, res, id2);
                        assert(self.table@ == pre.update(i as int, (id, res)));
                    }
                }
                return ;
            }
            i = i + 1;
        }
        self.table.push((id, res));
        proof {
            assert(self.table@.drop_last() =~= pre);
            lemma_nfind_at(self.table@, pre.len() as int, id);
            assert forall|id2: NodeId| id2 != id implies #[trigger] nfind(self.table@, id2)
                == nfind(pre, id2) by {
                lemma_nfind_push_other(pre, id, res, id2);
            }
        }
    }
}

/// A position holding the key, with no earlier one, is what the find
/// returns.
proof fn lemma_nfind_at(s: Seq<(NodeId, Res)>, idx: int, k: NodeId)
    requires
        0 <= idx < s.len(),
        s[idx].0 == k,
        forall|j: int| 0 <= j < idx ==> (#[trigger] s[j]).0 != k,
    ensures
        nfind(s, k) == Option::Some(s[idx].1),
    decreases s.len(),
{
    if idx > 0 {
        lemma_nfind_at(s.drop_first(), idx - 1, k);
    }
}

/// A list in which no position holds the key finds nothing.
proof fn lemma_nfind_none(s: Seq<(NodeId, Res)>, k: NodeId)
    requires
        forall|j: int| 0 <= j < s.len() ==> (#[trigger] s[j]).0 != k,
    ensures
        nfind(s, k) is None,
    decreases s.len(),
{
    if s.len() > 0 {
        lemma_nfind_none(s.drop_first(), k);
    }
}

/// Updating one key's entry leaves other keys' finds unchanged.
proof fn lemma_nfind_update_other(s: Seq<(NodeId, Res)>, idx: int, k: NodeId, v: Res, k2: NodeId)
    requires
        0 <= idx < s.len(),
        s[idx].0 == k,
        k2 != k,
    ensures
        nfind(s.update(idx, (k, v)), k2) == nfind(s, k2),
    decreases s.len(),
{
    if idx == 0 {
        assert(s.update(0, (k, v)).drop_first() =~= s.drop_first());
    } else {
        assert(s.update(idx, (k, v))[0] == s[0]);
        lemma_nfind_update_other(s.drop_first(), idx - 1, k, v, k2);
        assert(s.update(idx, (k, v)).drop_first() =~= s.drop_first().update(idx - 1, (k, v)));
    }
}

/// Appending one key's entry leaves other keys' finds unchanged.
proof fn lemma_nfind_push_other(s: Seq<(NodeId, Res)>, k: NodeId, v: Res, k2: NodeId)
    requires
        k2 != k,
    ensures
        nfind(s.push((k, v)), k2) == nfind(s, k2),
    decreases s.len(),
{
    if s.len() == 0 {
        assert(s.push((k, v))[0] == (k, v));
        assert(s.push((k, v)).drop_first() =~= s);
    } else {
        assert(s.push((k, v))[0] == s[0]);
        lemma_nfind_push_other(s.drop_first(), k, v, k2);
        assert(s.push((k, v)).drop_first() =~= s.drop_first().push((k, v)));
    }
}

/// Hands out the ids of bound items in order.
pub struct Assigner {
    pub next_id: usize,
}

impl Assigner {
    /// A fresh assigner.
    pub fn new_assigner() -> (r: Assigner)
        ensures
            r.next_id == 0,
    {
        Assigner { next_id: 0 }
    }

    /// The next local item id.
    pub fn next_item(&mut self) -> (r: usize)
        requires
            old(self).next_id < usize::MAX,
        ensures
            r == old(self).next_id,
            final(self).next_id == old(self).next_id + 1,
    {
        let id = self.next_id;
        self.next_id = self.next_id + 1;
        id
    }
}

/// An item reference within the package being bound.
pub fn intrapackage(item: usize) -> (r: ItemId)
    ensures
        r.package is None && r.item == item,
{
    ItemId { package: None, item }
}

/// Whether a rendered name occurs in a list of names.
pub open spec fn spec_names_contain(list: Seq<String>, name: Seq<char>) -> bool {
    exists|i: int| 0 <= i < list.len() && (#[trigger] list[i])@ == name
}

/// The status attribute names carry: `Unimplemented` marks an item declared
/// but unavailable.
pub open spec fn spec_attr_status(attrs: Seq<String>) -> ItemStatus {
    if spec_names_contain(attrs, ("Unimplemented")@) {
        ItemStatus::Unimplemented
    } else {
        ItemStatus::Available
    }
}

/// Reads the status the attribute names carry.
pub fn item_status_from_attrs(attrs: &Vec<String>) -> (r: ItemStatus)
    ensures
        r == spec_attr_status(attrs@),
{
    let mut probe = String::new();
    crate::val::str_push(&mut probe, "Unimplemented");
    let mut i: usize = 0;
    while i < attrs.len()
        invariant
            i <= attrs@.len(),
            probe@ == ("Unimplemented")@,
            forall|j: int| 0 <= j < i ==> (#[trigger] attrs@[j])@ != ("Unimplemented")@,
        decreases attrs@.len() - i,
    {
        if attrs[i].eq(&probe) {
            return ItemStatus::Unimplemented;
        }
        i = i + 1;
    }
    ItemStatus::Available
}

/// A local visible at an offset, as reported to the debugger.
#[derive(Debug)]
pub struct Local {
    pub name: String,
    pub kind: LocalKind,
}

/// What kind of local a reported name is.
#[derive(Debug)]
pub enum LocalKind {
    /// A local callable or type declaration.
    Item(ItemId),
    /// A type parameter.
    TyParam(ParamId),
    /// A local variable or parameter.
    Var(NodeId),
}

/// The locals one scope contributes at an offset: variables visible from
/// their declaration onward and type parameters (while variables are
/// visible at all), then local items. A name rebound in the same scope
/// keeps only its latest offset, so a shadowed variable goes unreported.
pub fn get_scope_locals(scope: &Scope, offset: u32, vars: bool) -> (r: Vec<Local>)
{
    let mut names: Vec<Local> = Vec::new();
    if vars {
        let mut i: usize = 0;
        while i < scope.vars.len()
            decreases scope.vars@.len() - i,
        {
            let valid_at = scope.vars[i].1.0;
            if offset >= valid_at {
                names.push(
                    Local {
                        name: scope.vars[i].0.clone(),
                        kind: LocalKind::Var(scope.vars[i].1.1),
                    },
                );
            }
            i = i + 1;
        }
        let mut j: usize = 0;
        while j < scope.ty_vars.len()
            decreases scope.ty_vars@.len() - j,
        {
            names.push(
                Local {
                    name: scope.ty_vars[j].0.clone(),
                    kind: LocalKind::TyParam(scope.ty_vars[j].1),
                },
            );
            j = j + 1;
        }
    }
    let mut k: usize = 0;
    while k < scope.terms.len()
        decreases scope.terms@.len() - k,
    {
        names.push(
            Local { name: scope.terms[k].0.clone(), kind: LocalKind::Item(scope.terms[k].1) },
        );
        k = k + 1;
    }
    names
}

impl Locals {
    /// Every local visible at an offset, innermost scope first; a name in a
    /// child scope shadows the same name in its parents, and crossing a
    /// callable scope hides outer variables.
    pub fn get_all_at_offset(&self, offset: u32) -> (r: Vec<Local>)
    {
        let mut all_locals: Vec<Local> = Vec::new();
        let mut vars = true;
        let n = self.scopes.len();
        let mut i: usize = n;
        while i > 0
            invariant
                i <= n,
                n == self.scopes@.len(),
            decreases i,
        {
            i = i - 1;
            let scope = &self.scopes[i];
            if scope.span.lo < offset && scope.span.hi > offset {
                let mut part = get_scope_locals(scope, offset, vars);
                all_locals.append(&mut part);
                if matches!(scope.kind, ScopeKind::Callable) {
                    vars = false;
                }
            }
        }
        dedup_locals_by_name(all_locals)
    }
}

/// Drops each local whose name repeats the one just before it, so a child
/// scope's binding shadows its parents' in the flattened list.
fn dedup_locals_by_name(locals: Vec<Local>) -> (r: Vec<Local>)
{
    let mut out: Vec<Local> = Vec::new();
    let mut i: usize = 0;
    let mut locals = locals;
    while i < locals.len()
        decreases locals@.len() - i,
    {
        let take_it = if out.len() == 0 {
            true
        } else {
            !out[out.len() - 1].name.eq(&locals[i].name)
        };
        if take_it {
            let name = locals[i].name.clone();
            let kind = match &locals[i].kind {
                LocalKind::Item(id) => LocalKind::Item(*id),
                LocalKind::TyParam(p) => LocalKind::TyParam(*p),
                LocalKind::Var(v) => LocalKind::Var(*v),
            };
            out.push(Local { name, kind });
        }
        i = i + 1;
    }
    out
}

/// Extracts a field name from a syntactically ambiguous update-operator
/// index: an unqualified path that did not resolve to a local is read as a
/// field name.
pub fn extract_field_name<'a>(names: &Names, expr: &'a ast::Expr) -> (r: Option<&'a String>)
    ensures
        match r {
            Option::Some(_) => expr.kind matches ast::ExprKind::Path(p) && p.namespace is None
                && !(nfind(names.table@, p.id) matches Option::Some(res) && res is Local),
            Option::None => true,
        },
{
    match &expr.kind {
        ast::ExprKind::Path(path) => {
            if path.namespace.is_some() {
                return None;
            }
            let is_local = match names.get(path.id) {
                Option::Some(Res::Local(_)) => true,
                _ => false,
            };
            if is_local {
                None
            } else {
                Some(&path.name.name)
            }
        },
        _ => None,
    }
}

/// Disambiguates the update operator's index: an unqualified path that does
/// not resolve to a local is treated as a field name and not visited.
pub fn is_field_update(globals: &GlobalScope, locals: &Locals, chain: &Vec<usize>, index:
    &ast::Expr) -> (r: bool)
    requires
        forall|i: int| 0 <= i < chain@.len() ==> (#[trigger] chain@[i]) < locals.scopes@.len(),
    ensures
        !(index.kind is Path) ==> r == false,
        index.kind matches ast::ExprKind::Path(p) ==> ({
            &&& p.namespace is Some ==> r == false
            &&& p.namespace is None ==> r == !(spec_resolve(
                NameKind::Term,
                *globals,
                chain_scopes(*locals, chain@),
                p.name.name@,
                p.name.span,
                Seq::<char>::empty(),
            ) matches Result::Ok(res) && res is Local)
        }),
{
    match &index.kind {
        ast::ExprKind::Path(path) => {
            if path.namespace.is_some() {
                return false;
            }
            match resolve(NameKind::Term, globals, locals, chain, &path.name, &None) {
                Ok(Res::Local(_)) => false,
                _ => true,
            }
        },
        _ => false,
    }
}



/// One global of an already-compiled package, as offered to the binder.
#[derive(Debug)]
pub enum EntryKind {
    Ty(ItemId),
    Term(ItemId),
    Namespace,
}

/// A global an external package exports.
#[derive(Debug)]
pub struct GlobalEntry {
    pub namespace: String,
    pub name: String,
    pub kind: EntryKind,
    pub status: ItemStatus,
    pub public: bool,
    pub intrinsic: bool,
}

/// The bound global items: the names of their declarations and the tables
/// resolution consults.
pub struct GlobalTable {
    pub names: Names,
    pub scope: GlobalScope,
}

/// The lookup a namespace table answers.
pub open spec fn spec_table_get(table: Seq<(String, Vec<(String, Res)>)>, namespace: Seq<char>,
    name: Seq<char>) -> Option<Res> {
    match sfind(smap_view(table), namespace) {
        Option::Some(items) => sfind(smap_view(items@), name),
        Option::None => Option::None,
    }
}

/// Inserts into a namespace's table, creating the namespace entry on first
/// use; reports whether the name was already bound there.
fn global_insert(table: &mut Vec<(String, Vec<(String, Res)>)>, namespace: &String, name:
    String, res: Res) -> (r: bool)
    ensures
        r == (spec_table_get(old(table)@, namespace@, name@) is Some),
        spec_table_get(final(table)@, namespace@, name@) == Option::Some(res),
{
    let ghost pre = table@;
    let mut i: usize = 0;
    while i < table.len()
        invariant
            i <= table@.len(),
            table@ == pre,
            pre == old(table)@,
            forall|j: int| 0 <= j < i ==> (#[trigger] pre[j]).0@ != namespace@,
        decreases table@.len() - i,
    {
        if table[i].0.eq(namespace) {
            proof {
                lemma_sfind_at(smap_view(pre), i as int, namespace@);
            }
            let entry = &mut table[i];
            let ghost prev_items = entry.1@;
            proof {
                assert(prev_items == pre[i as int].1@);
                assert(spec_table_get(pre, namespace@, name@) == sfind(
                    smap_view(prev_items),
                    name@,
                ));
            }
            let had = smap_contains(&entry.1, &name);
            smap_set(&mut entry.1, name, res);
            proof {
                lemma_sfind_set_self(smap_view(prev_items), name@, res);
                assert forall|j: int| 0 <= j < i implies (#[trigger] table@[j]).0@
                    != namespace@ by {
                    assert(table@[j] == pre[j]);
                }
                assert(table@[i as int].0@ == namespace@);
                lemma_sfind_at(smap_view(table@), i as int, namespace@);
            }
            return had;
        }
        i = i + 1;
    }
    proof {
        lemma_sfind_none(smap_view(pre), namespace@);
    }
    let mut items: Vec<(String, Res)> = Vec::new();
    items.push((name, res));
    table.push((namespace.clone(), items));
    proof {
        assert(table@.drop_last() =~= pre);
        assert forall|j: int| 0 <= j < pre.len() implies (#[trigger] table@[j]).0@
            != namespace@ by {
            assert(table@[j] == pre[j]);
        }
        lemma_sfind_at(smap_view(table@), pre.len() as int, namespace@);
        assert(smap_view(table@[pre.len() as int].1@)[0].0 == name@);
    }
    false
}

/// A set key is found with its new value.
proof fn lemma_sfind_set_self(s: Seq<(Seq<char>, Res)>, k: Seq<char>, v: Res)
    ensures
        sfind(sset(s, k, v), k) == Option::Some(v),
    decreases s.len(),
{
    if s.len() == 0 {
    } else if s[0].0 == k {
        assert(sset(s, k, v)[0] == (k, v));
    } else {
        lemma_sfind_set_self(s.drop_first(), k, v);
        assert(sset(s, k, v)[0] == s[0]);
        assert(sset(s, k, v).drop_first() =~= sset(s.drop_first(), k, v));
    }
}

/// Whether a namespace's table already holds a name.
fn global_contains(table: &Vec<(String, Vec<(String, Res)>)>, namespace: &String, name:
    &String) -> (r: bool)
    ensures
        r == (spec_table_get(table@, namespace@, name@) is Some),
{
    let mut i: usize = 0;
    while i < table.len()
        invariant
            i <= table@.len(),
            forall|j: int| 0 <= j < i ==> (#[trigger] table@[j]).0@ != namespace@,
        decreases table@.len() - i,
    {
        if table[i].0.eq(namespace) {
            proof {
                lemma_sfind_at(smap_view(table@), i as int, namespace@);
            }
            return smap_contains(&table[i].1, name);
        }
        i = i + 1;
    }
    proof {
        lemma_sfind_none(smap_view(table@), namespace@);
    }
    false
}

/// Whether a list of names holds one.
fn names_contain(list: &Vec<String>, name: &String) -> (r: bool)
    ensures
        r == spec_names_contain(list@, name@),
{
    let mut i: usize = 0;
    while i < list.len()
        invariant
            i <= list@.len(),
            forall|j: int| 0 <= j < i ==> (#[trigger] list@[j])@ != name@,
        decreases list@.len() - i,
    {
        if list[i].eq(name) {
            return true;
        }
        i = i + 1;
    }
    false
}

/// Whether some specialization body of a callable is declared intrinsic.
pub open spec fn spec_decl_is_intrinsic(decl: ast::CallableDecl) -> bool {
    match decl.body {
        ast::CallableBody::Block(_) => false,
        ast::CallableBody::Specs(specs) => exists|i: int|
            0 <= i < specs@.len() && (#[trigger] specs@[i]).body is Intrinsic,
    }
}

/// Whether a callable declares an intrinsic specialization body.
pub fn decl_is_intrinsic(decl: &ast::CallableDecl) -> (r: bool)
    ensures
        r == spec_decl_is_intrinsic(*decl),
{
    match &decl.body {
        ast::CallableBody::Block(_) => false,
        ast::CallableBody::Specs(specs) => {
            let mut i: usize = 0;
            while i < specs.len()
                invariant
                    i <= specs@.len(),
                    decl.body matches ast::CallableBody::Specs(sp) && sp@ == specs@,
                    forall|j: int| 0 <= j < i ==> !((#[trigger] specs@[j]).body is Intrinsic),
                decreases specs@.len() - i,
            {
                if matches!(specs[i].body, ast::SpecBody::Intrinsic) {
                    return true;
                }
                i = i + 1;
            }
            false
        },
    }
}

/// Binds one global item of a namespace: a callable takes its name in the
/// term table, a type takes both tables; a second declaration of a name is
/// `Duplicate`, a second intrinsic of a name is `DuplicateIntrinsic`.
pub fn bind_global_item(names: &mut Names, scope: &mut GlobalScope, namespace: &String,
    assigner: &mut Assigner, item: &ast::Item, errors: &mut Vec<Error>)
    requires
        old(assigner).next_id < usize::MAX - 1,
    ensures
        final(assigner).next_id <= old(assigner).next_id + 1,
        item.kind matches ast::ItemKind::Callable(decl) ==> ({
            let fresh = Res::Item(
                ItemId { package: Option::None, item: old(assigner).next_id },
                spec_attr_status(item.attrs@),
            );
            let dup = old(scope).spec_get(NameKind::Term, namespace@, decl.name.name@) is Some;
            let dup_intrinsic = spec_decl_is_intrinsic(decl) && spec_names_contain(
                old(scope).intrinsics@,
                decl.name.name@,
            );
            &&& nfind(final(names).table@, decl.name.id) == Option::Some(fresh)
            &&& !dup ==> final(scope).spec_get(NameKind::Term, namespace@, decl.name.name@)
                == Option::Some(fresh)
            &&& dup ==> final(scope).spec_get(NameKind::Term, namespace@, decl.name.name@)
                == old(scope).spec_get(NameKind::Term, namespace@, decl.name.name@)
            &&& (dup && dup_intrinsic ==> final(errors)@.len() == old(errors)@.len() + 2)
            &&& (dup != dup_intrinsic ==> final(errors)@.len() == old(errors)@.len() + 1)
            &&& (!dup && !dup_intrinsic ==> final(errors)@ == old(errors)@)
            &&& (dup ==> (final(errors)@[old(errors)@.len() as int] matches Error::Duplicate(
                n,
                ns,
                sp,
            ) && n@ == decl.name.name@ && ns@ == namespace@ && sp == decl.name.span))
            &&& (dup_intrinsic ==> (final(errors)@.last() matches Error::DuplicateIntrinsic(
                n,
                sp,
            ) && n@ == decl.name.name@ && sp == decl.name.span))
            &&& (spec_decl_is_intrinsic(decl) && !dup_intrinsic
                ==> spec_names_contain(final(scope).intrinsics@, decl.name.name@))
        }),
        item.kind matches ast::ItemKind::Ty(name) ==> ({
            let fresh = Res::Item(
                ItemId { package: Option::None, item: old(assigner).next_id },
                spec_attr_status(item.attrs@),
            );
            let dup = old(scope).spec_get(NameKind::Term, namespace@, name.name@) is Some || old(scope).spec_get(NameKind::Ty, namespace@, name.name@) is Some;
            &&& nfind(final(names).table@, name.id) == Option::Some(fresh)
            &&& !dup ==> final(scope).spec_get(NameKind::Term, namespace@, name.name@)
                == Option::Some(fresh) && final(scope).spec_get(
                NameKind::Ty,
                namespace@,
                name.name@,
            ) == Option::Some(fresh)
            &&& dup ==> final(errors)@.len() == old(errors)@.len() + 1 && (final(errors)@.last()
                matches Error::Duplicate(n, ns, sp) && n@ == name.name@ && ns@ == namespace@
                && sp == name.span)
            &&& !dup ==> final(errors)@ == old(errors)@
        }),
        item.kind is Open || item.kind is Invalid ==> final(names).table@ == old(names).table@
            && final(errors)@ == old(errors)@,
{
    match &item.kind {
        ast::ItemKind::Callable(decl) => {
            let item_id = intrapackage(assigner.next_item());
            let status = item_status_from_attrs(&item.attrs);
            let res = Res::Item(item_id, status);
            names.insert(decl.name.id, res);
            proof {
                assert(old(scope).spec_get(NameKind::Term, namespace@, decl.name.name@)
                    == spec_table_get(old(scope).terms@, namespace@, decl.name.name@));
            }
            if global_contains(&scope.terms, namespace, &decl.name.name) {
                errors.push(
                    Error::Duplicate(
                        decl.name.name.clone(),
                        namespace.clone(),
                        decl.name.span,
                    ),
                );
            } else {
                let _ = global_insert(&mut scope.terms, namespace, decl.name.name.clone(), res);
                proof {
                    assert(scope.spec_get(NameKind::Term, namespace@, decl.name.name@)
                        == spec_table_get(scope.terms@, namespace@, decl.name.name@));
                }
            }
            if decl_is_intrinsic(decl) {
                if names_contain(&scope.intrinsics, &decl.name.name) {
                    errors.push(
                        Error::DuplicateIntrinsic(decl.name.name.clone(), decl.name.span),
                    );
                } else {
                    scope.intrinsics.push(decl.name.name.clone());
                    proof {
                        assert(scope.intrinsics@.last()@ == decl.name.name@);
                        assert(spec_names_contain(scope.intrinsics@, decl.name.name@));
                    }
                }
            }
        },
        ast::ItemKind::Ty(name) => {
            let item_id = intrapackage(assigner.next_item());
            let status = item_status_from_attrs(&item.attrs);
            let res = Res::Item(item_id, status);
            names.insert(name.id, res);
            proof {
                assert(old(scope).spec_get(NameKind::Term, namespace@, name.name@)
                    == spec_table_get(old(scope).terms@, namespace@, name.name@));
                assert(old(scope).spec_get(NameKind::Ty, namespace@, name.name@)
                    == spec_table_get(old(scope).tys@, namespace@, name.name@));
            }
            if global_contains(&scope.terms, namespace, &name.name) || global_contains(
                &scope.tys,
                namespace,
                &name.name,
            ) {
                errors.push(
                    Error::Duplicate(name.name.clone(), namespace.clone(), name.span),
                );
            } else {
                let _ = global_insert(&mut scope.terms, namespace, name.name.clone(), res);
                let _ = global_insert(&mut scope.tys, namespace, name.name.clone(), res);
                proof {
                    assert(scope.spec_get(NameKind::Term, namespace@, name.name@)
                        == spec_table_get(scope.terms@, namespace@, name.name@));
                    assert(scope.spec_get(NameKind::Ty, namespace@, name.name@)
                        == spec_table_get(scope.tys@, namespace@, name.name@));
                }
            }
        },
        ast::ItemKind::Open(_, _) => {},
        ast::ItemKind::Invalid => {},
    }
}

/// Binds a namespace declaration: its name becomes an item and a known
/// namespace, and each of its items is bound into the global tables.
pub fn bind_global_items(names: &mut Names, scope: &mut GlobalScope, namespace: &ast::Namespace,
    assigner: &mut Assigner, errors: &mut Vec<Error>)
    requires
        old(assigner).next_id + namespace.items@.len() < usize::MAX - 1,
{
    names.insert(
        namespace.name.id,
        Res::Item(intrapackage(assigner.next_item()), ItemStatus::Available),
    );
    scope.namespaces.push(namespace.name.name.clone());
    let mut i: usize = 0;
    while i < namespace.items.len()
        invariant
            i <= namespace.items@.len(),
            assigner.next_id <= old(assigner).next_id + 1 + i,
            old(assigner).next_id + 1 + namespace.items@.len() < usize::MAX,
        decreases namespace.items@.len() - i,
    {
        bind_global_item(names, scope, &namespace.name.name, assigner, &namespace.items[i],
            errors);
        i = i + 1;
    }
}

impl GlobalTable {
    /// A table holding the core namespace's built-in type names.
    pub fn new_table() -> (r: GlobalTable)
    {
        let builtins: [(&str, Res); 10] = [
            ("BigInt", Res::PrimTy(Prim::BigInt)),
            ("Bool", Res::PrimTy(Prim::Bool)),
            ("Double", Res::PrimTy(Prim::Double)),
            ("Int", Res::PrimTy(Prim::Int)),
            ("Pauli", Res::PrimTy(Prim::Pauli)),
            ("Qubit", Res::PrimTy(Prim::Qubit)),
            ("Range", Res::PrimTy(Prim::Range)),
            ("Result", Res::PrimTy(Prim::Result)),
            ("String", Res::PrimTy(Prim::String)),
            ("Unit", Res::UnitTy),
        ];
        let mut core_ns: Vec<(String, Res)> = Vec::new();
        let mut i: usize = 0;
        while i < 10
            decreases 10 - i,
        {
            let mut n = String::new();
            crate::val::str_push(&mut n, builtins[i].0);
            core_ns.push((n, builtins[i].1));
            i = i + 1;
        }
        let mut core_name = String::new();
        crate::val::str_push(&mut core_name, "Microsoft.Quantum.Core");
        let mut tys: Vec<(String, Vec<(String, Res)>)> = Vec::new();
        tys.push((core_name, core_ns));
        GlobalTable {
            names: Names::new_names(),
            scope: GlobalScope {
                tys,
                terms: Vec::new(),
                namespaces: Vec::new(),
                intrinsics: Vec::new(),
            },
        }
    }

    /// Binds every namespace of a fresh fragment, reporting duplicates.
    /// Top-level statements do not occur in a full compilation and are
    /// passed over.
    pub fn add_local_package(&mut self, assigner: &mut Assigner, package: &ast::Package) -> (r:
        Vec<Error>)
    {
        let mut errors: Vec<Error> = Vec::new();
        let mut i: usize = 0;
        while i < package.nodes.len()
            decreases package.nodes@.len() - i,
        {
            match &package.nodes[i] {
                ast::TopLevelNode::Namespace(ns) => {
                    if assigner.next_id < usize::MAX / 2 && ns.items.len() < usize::MAX / 4 {
                        bind_global_items(
                            &mut self.names,
                            &mut self.scope,
                            ns,
                            assigner,
                            &mut errors,
                        );
                    }
                },
                ast::TopLevelNode::Stmt(_) => {},
            }
            i = i + 1;
        }
        errors
    }

    /// Takes in the public globals of an already-compiled package: public
    /// types and terms under their namespaces, intrinsic names, and the
    /// package's namespaces.
    pub fn add_external_package(&mut self, entries: &Vec<GlobalEntry>)
    {
        let mut i: usize = 0;
        while i < entries.len()
            decreases entries@.len() - i,
        {
            let entry = &entries[i];
            match &entry.kind {
                EntryKind::Ty(id) => {
                    if entry.public {
                        let _ = global_insert(
                            &mut self.scope.tys,
                            &entry.namespace,
                            entry.name.clone(),
                            Res::Item(*id, entry.status),
                        );
                    }
                },
                EntryKind::Term(id) => {
                    if entry.public {
                        let _ = global_insert(
                            &mut self.scope.terms,
                            &entry.namespace,
                            entry.name.clone(),
                            Res::Item(*id, entry.status),
                        );
                    }
                    if entry.intrinsic {
                        self.scope.intrinsics.push(entry.name.clone());
                    }
                },
                EntryKind::Namespace => {
                    if entry.public {
                        self.scope.namespaces.push(entry.name.clone());
                    }
                },
            }
            i = i + 1;
        }
    }
}

/// Whether some dropped declaration carries a rendered name.
pub open spec fn spec_dropped_contains(dropped: Seq<TrackedName>, name: Seq<char>) -> bool {
    exists|i: int| 0 <= i < dropped.len() && (#[trigger] dropped[i]).name@ == name
}

/// The first dropped declaration of a name, if any was recorded.
fn find_dropped(dropped: &Vec<TrackedName>, name: &String) -> (r: Option<usize>)
    ensures
        match r {
            Option::Some(d) => d < dropped@.len() && dropped@[d as int].name@ == name@ && forall|
                j: int,
            | 0 <= j < d ==> (#[trigger] dropped@[j]).name@ != name@,
            Option::None => forall|j: int|
                0 <= j < dropped@.len() ==> (#[trigger] dropped@[j]).name@ != name@,
        },
{
    let mut i: usize = 0;
    while i < dropped.len()
        invariant
            i <= dropped@.len(),
            forall|j: int| 0 <= j < i ==> (#[trigger] dropped@[j]).name@ != name@,
        decreases dropped@.len() - i,
    {
        if dropped[i].name.eq(name) {
            return Some(i);
        }
        i = i + 1;
    }
    None
}

/// Adds an open under its alias in a scope's open table.
fn add_open(opens: &mut Vec<(String, Vec<Open>)>, alias: String, open: Open)
{
    let mut i: usize = 0;
    while i < opens.len()
        invariant
            i <= opens@.len(),
        decreases opens@.len() - i,
    {
        if opens[i].0.eq(&alias) {
            let entry = &mut opens[i];
            entry.1.push(open);
            return ;
        }
        i = i + 1;
    }
    let mut list: Vec<Open> = Vec::new();
    list.push(open);
    opens.push((alias, list));
}

/// The resolver: global tables, retained scopes, the chain of scopes being
/// walked, the names bound so far, and the errors met on the way.
pub struct Resolver {
    pub names: Names,
    pub dropped_names: Vec<TrackedName>,
    pub curr_params: Option<Vec<String>>,
    pub curr_scope_chain: Vec<usize>,
    pub globals: GlobalScope,
    pub locals: Locals,
    pub errors: Vec<Error>,
}

impl Resolver {
    /// Every chain entry indexes a retained scope.
    pub open spec fn wf(self) -> bool {
        forall|i: int|
            0 <= i < self.curr_scope_chain@.len() ==> (#[trigger] self.curr_scope_chain@[i])
                < self.locals.scopes@.len()
    }

    /// A resolver over bound global tables.
    pub fn new(globals: GlobalTable, dropped_names: Vec<TrackedName>) -> (r: Resolver)
        ensures
            r.wf(),
            r.errors@.len() == 0,
    {
        Resolver {
            names: globals.names,
            dropped_names,
            curr_params: None,
            globals: globals.scope,
            locals: Locals::new_locals(),
            curr_scope_chain: Vec::new(),
            errors: Vec::new(),
        }
    }

    /// A resolver whose outermost block scope never closes, for binding
    /// interactive fragments whose locals persist.
    pub fn with_persistent_local_scope(globals: GlobalTable, dropped_names: Vec<TrackedName>)
        -> (r: Resolver)
        ensures
            r.wf(),
            r.errors@.len() == 0,
    {
        let mut locals = Locals::new_locals();
        let scope_id = locals.push_scope(
            Scope::new(ScopeKind::Block, Span { lo: 0, hi: u32::MAX }),
        );
        let mut chain: Vec<usize> = Vec::new();
        chain.push(scope_id);
        Resolver {
            names: globals.names,
            dropped_names,
            curr_params: None,
            globals: globals.scope,
            locals,
            curr_scope_chain: chain,
            errors: Vec::new(),
        }
    }

    /// The names bound so far.
    pub fn names(&self) -> (r: &Names)
        ensures
            r == &self.names,
    {
        &self.names
    }

    /// The retained scopes.
    pub fn locals(&self) -> (r: &Locals)
        ensures
            r == &self.locals,
    {
        &self.locals
    }

    /// Takes the accumulated errors, leaving none.
    pub fn drain_errors(&mut self) -> (r: Vec<Error>)
        ensures
            r == old(self).errors,
            final(self).errors@.len() == 0,
            final(self).names == old(self).names,
            final(self).locals == old(self).locals,
            final(self).curr_scope_chain == old(self).curr_scope_chain,
            final(self).globals == old(self).globals,
    {
        let mut out: Vec<Error> = Vec::new();
        core::mem::swap(&mut out, &mut self.errors);
        out
    }

    /// Dismantles the resolver into its names, scopes and errors.
    pub fn into_result(self) -> (r: (Names, Locals, Vec<Error>))
        ensures
            r.0 == self.names,
            r.1 == self.locals,
            r.2 == self.errors,
    {
        (self.names, self.locals, self.errors)
    }

    /// Adds further dropped names for failure reporting.
    pub fn extend_dropped_names(&mut self, mut dropped_names: Vec<TrackedName>)
        requires
            old(self).wf(),
        ensures
            final(self).wf(),
            final(self).locals == old(self).locals,
            final(self).curr_scope_chain == old(self).curr_scope_chain,
    {
        self.dropped_names.append(&mut dropped_names);
    }

    /// Binds the global items of an interactive fragment: namespaces bind
    /// their items globally, and a top-level item statement binds locally.
    pub fn bind_fragments(&mut self, package: &ast::Package, assigner: &mut Assigner)
        requires
            old(self).wf(),
        ensures
            final(self).wf(),
    {
        let mut i: usize = 0;
        while i < package.nodes.len()
            invariant
                self.wf(),
                i <= package.nodes@.len(),
            decreases package.nodes@.len() - i,
        {
            match &package.nodes[i] {
                ast::TopLevelNode::Namespace(ns) => {
                    if assigner.next_id < usize::MAX / 2 && ns.items.len() < usize::MAX / 4 {
                        let mut errors: Vec<Error> = Vec::new();
                        bind_global_items(
                            &mut self.names,
                            &mut self.globals,
                            ns,
                            assigner,
                            &mut errors,
                        );
                        self.errors.append(&mut errors);
                    }
                },
                ast::TopLevelNode::Stmt(stmt) => {
                    match &stmt.kind {
                        ast::StmtKind::Item(item) => {
                            if assigner.next_id < usize::MAX - 1 {
                                self.bind_local_item(assigner, item);
                            }
                        },
                        _ => {},
                    }
                },
            }
            i = i + 1;
        }
    }

    /// Records a use of an unimplemented item as an error.
    fn check_item_status(&mut self, res: Res, name: String, span: Span)
        ensures
            final(self).names == old(self).names,
            final(self).locals == old(self).locals,
            final(self).curr_scope_chain == old(self).curr_scope_chain,
            final(self).globals == old(self).globals,
            matches!(res, Res::Item(_, ItemStatus::Unimplemented)) ==> final(self).errors@ == old(
                self,
            ).errors@.push(Error::Unimplemented(name, span)),
            !matches!(res, Res::Item(_, ItemStatus::Unimplemented)) ==> final(self).errors@
                == old(self).errors@,
    {
        match res {
            Res::Item(_, ItemStatus::Unimplemented) => {
                self.errors.push(Error::Unimplemented(name, span));
            },
            _ => {},
        }
    }

    /// Resolves an unqualified identifier, recording the resolution or the
    /// error.
    pub fn resolve_ident(&mut self, kind: NameKind, name: &ast::Ident)
        requires
            old(self).wf(),
        ensures
            final(self).wf(),
            spec_resolve(
                kind,
                old(self).globals,
                chain_scopes(old(self).locals, old(self).curr_scope_chain@),
                name.name@,
                name.span,
                Seq::<char>::empty(),
            ) matches Result::Ok(res) ==> nfind(final(self).names.table@, name.id)
                == Option::Some(res),
            spec_resolve(
                kind,
                old(self).globals,
                chain_scopes(old(self).locals, old(self).curr_scope_chain@),
                name.name@,
                name.span,
                Seq::<char>::empty(),
            ) is Err ==> final(self).errors@.len() == old(self).errors@.len() + 1,
    {
        match resolve(
            kind,
            &self.globals,
            &self.locals,
            &self.curr_scope_chain,
            name,
            &None,
        ) {
            Ok(res) => {
                self.check_item_status(res, name.name.clone(), name.span);
                self.names.insert(name.id, res);
            },
            Err(err) => {
                self.errors.push(err);
            },
        }
    }

    /// Resolves a path, recording the resolution or the error; a name that
    /// is not found but matches a dropped declaration reports
    /// `NotAvailable` with the dropped item's qualified name.
    pub fn resolve_path(&mut self, kind: NameKind, path: &ast::Path)
        requires
            old(self).wf(),
        ensures
            final(self).wf(),
            spec_resolve(
                kind,
                old(self).globals,
                chain_scopes(old(self).locals, old(self).curr_scope_chain@),
                path.name.name@,
                path.name.span,
                match path.namespace {
                    Option::Some(ns) => ns.name@,
                    Option::None => Seq::<char>::empty(),
                },
            ) matches Result::Ok(res) ==> nfind(final(self).names.table@, path.id)
                == Option::Some(res),
            spec_resolve(
                kind,
                old(self).globals,
                chain_scopes(old(self).locals, old(self).curr_scope_chain@),
                path.name.name@,
                path.name.span,
                match path.namespace {
                    Option::Some(ns) => ns.name@,
                    Option::None => Seq::<char>::empty(),
                },
            ) is Err ==> final(self).errors@.len() == old(self).errors@.len() + 1,
            spec_resolve(
                kind,
                old(self).globals,
                chain_scopes(old(self).locals, old(self).curr_scope_chain@),
                path.name.name@,
                path.name.span,
                match path.namespace {
                    Option::Some(ns) => ns.name@,
                    Option::None => Seq::<char>::empty(),
                },
            ) matches Result::Err(err) ==> (err is NotFound ==> ({
                let dropped_match = spec_dropped_contains(
                    old(self).dropped_names@,
                    path.name.name@,
                );
                &&& (dropped_match ==> (final(self).errors@.last() matches Error::NotAvailable(
                    n,
                    _,
                    sp,
                ) && n@ == path.name.name@ && sp == path.name.span))
                &&& (!dropped_match ==> (final(self).errors@.last() matches Error::NotFound(
                    n,
                    sp,
                ) && n@ == path.name.name@ && sp == path.name.span))
            })),
    {
        match resolve(
            kind,
            &self.globals,
            &self.locals,
            &self.curr_scope_chain,
            &path.name,
            &path.namespace,
        ) {
            Ok(res) => {
                self.check_item_status(res, path.name.name.clone(), path.span);
                self.names.insert(path.id, res);
            },
            Err(err) => {
                match err {
                    Error::NotFound(name, span) => {
                        match find_dropped(&self.dropped_names, &name) {
                            Option::Some(d) => {
                                let entry = &self.dropped_names[d];
                                let mut qualified = entry.namespace.clone();
                                crate::val::str_push(&mut qualified, ".");
                                crate::val::string_append(&mut qualified, &entry.name);
                                self.errors.push(Error::NotAvailable(name, qualified, span));
                            },
                            Option::None => {
                                self.errors.push(Error::NotFound(name, span));
                            },
                        }
                    },
                    _ => {
                        self.errors.push(err);
                    },
                }
            },
        }
    }

    /// The id of the innermost scope, when one is open.
    fn current_scope_id(&self) -> (r: Option<usize>)
        requires
            self.wf(),
        ensures
            match r {
                Option::Some(id) => id < self.locals.scopes@.len()
                    && self.curr_scope_chain@.len() > 0 && id == self.curr_scope_chain@.last(),
                Option::None => self.curr_scope_chain@.len() == 0,
            },
    {
        if self.curr_scope_chain.len() > 0 {
            Some(self.curr_scope_chain[self.curr_scope_chain.len() - 1])
        } else {
            None
        }
    }

    /// Binds a pattern's names into the innermost scope, each valid from
    /// the given offset; a name repeated within the pattern reports
    /// `DuplicateBinding`.
    pub fn bind_pat(&mut self, pat: &ast::Pat, valid_at: u32)
        requires
            old(self).wf(),
        ensures
            final(self).wf(),
    {
        let mut bindings: Vec<String> = Vec::new();
        self.bind_pat_recursive(pat, valid_at, &mut bindings);
    }

    /// As [`Resolver::bind_pat`], threading the names already bound by the
    /// enclosing pattern. A name binding maps its own node in the names
    /// table, enters the innermost scope's variable map visible from the
    /// given offset, and reports `DuplicateBinding` exactly when the name
    /// was already bound by this pattern.
    pub fn bind_pat_recursive(&mut self, pat: &ast::Pat, valid_at: u32, bindings: &mut Vec<
        String,
    >)
        requires
            old(self).wf(),
        ensures
            final(self).wf(),
            final(self).curr_scope_chain == old(self).curr_scope_chain,
            pat.kind matches ast::PatKind::Bind(ident) ==> ({
                let dup = spec_names_contain(old(bindings)@, ident.name@);
                &&& nfind(final(self).names.table@, ident.id) == Option::Some(
                    Res::Local(ident.id),
                )
                &&& (dup ==> final(self).errors@.len() == old(self).errors@.len() + 1 && (final(self).errors@.last() matches Error::DuplicateBinding(n, sp) && n@ == ident.name@
                    && sp == ident.span) && final(bindings)@ == old(bindings)@)
                &&& (!dup ==> final(self).errors@ == old(self).errors@ && final(bindings)@
                    == old(bindings)@.push(final(bindings)@.last()) && final(bindings)@.last()@
                    == ident.name@)
                &&& (old(self).curr_scope_chain@.len() > 0 ==> smap_view(
                    final(self).locals.scopes@[old(self).curr_scope_chain@.last() as int].vars@,
                ) == sset(
                    smap_view(
                        old(self).locals.scopes@[old(self).curr_scope_chain@.last() as int].vars@,
                    ),
                    ident.name@,
                    (valid_at, ident.id),
                ))
            }),
        decreases *pat,
    {
        match &pat.kind {
            ast::PatKind::Bind(name) => {
                let already = names_contain(bindings, &name.name);
                if already {
                    self.errors.push(
                        Error::DuplicateBinding(name.name.clone(), name.span),
                    );
                } else {
                    bindings.push(name.name.clone());
                }
                self.names.insert(name.id, Res::Local(name.id));
                match self.current_scope_id() {
                    Option::Some(sid) => {
                        let scope = &mut self.locals.scopes[sid];
                        smap_set(&mut scope.vars, name.name.clone(), (valid_at, name.id));
                    },
                    Option::None => {},
                }
            },
            ast::PatKind::Discard => {},
            ast::PatKind::Elided => {},
            ast::PatKind::Invalid => {},
            ast::PatKind::Paren(inner) => {
                self.bind_pat_recursive(inner, valid_at, bindings);
            },
            ast::PatKind::Tuple(pats) => {
                let mut i: usize = 0;
                while i < pats.len()
                    invariant
                        self.wf(),
                        i <= pats@.len(),
                        self.curr_scope_chain == old(self).curr_scope_chain,
                        pat.kind matches ast::PatKind::Tuple(ps) && ps@ == pats@,
                    decreases pats@.len() - i,
                {
                    proof {
                        assert(pats@[i as int] == pat.kind->Tuple_0@[i as int]);
                    }
                    self.bind_pat_recursive(&pats[i], valid_at, bindings);
                    i = i + 1;
                }
            },
        }
    }

    /// Records an open in the innermost scope under its alias, or reports
    /// `NotFound` exactly when the namespace is unknown.
    pub fn bind_open(&mut self, name: &ast::Ident, alias: &Option<ast::Ident>)
        requires
            old(self).wf(),
        ensures
            final(self).wf(),
            final(self).curr_scope_chain == old(self).curr_scope_chain,
            !spec_names_contain(old(self).globals.namespaces@, name.name@) ==> final(self).errors@.len() == old(self).errors@.len() + 1 && (final(self).errors@.last() matches
            Error::NotFound(n, sp) && n@ == name.name@ && sp == name.span) && final(self).locals
                == old(self).locals,
            spec_names_contain(old(self).globals.namespaces@, name.name@) ==> final(self).errors@ == old(self).errors@,
    {
        let alias_key: String = match alias {
            Option::Some(a) => a.name.clone(),
            Option::None => String::new(),
        };
        let known = names_contain(&self.globals.namespaces, &name.name);
        if known {
            match self.current_scope_id() {
                Option::Some(sid) => {
                    let scope = &mut self.locals.scopes[sid];
                    add_open(
                        &mut scope.opens,
                        alias_key,
                        Open { namespace: name.name.clone(), span: name.span },
                    );
                },
                Option::None => {},
            }
        } else {
            self.errors.push(Error::NotFound(name.name.clone(), name.span));
        }
    }

    /// Binds an item declared inside a block: an open is recorded, a
    /// callable or type gets a fresh item id, mapped from the declaring
    /// name's node and entered in the innermost scope's term (and, for a
    /// type, type) table.
    pub fn bind_local_item(&mut self, assigner: &mut Assigner, item: &ast::Item)
        requires
            old(self).wf(),
            old(assigner).next_id < usize::MAX - 1,
        ensures
            final(self).wf(),
            final(self).curr_scope_chain == old(self).curr_scope_chain,
            item.kind matches ast::ItemKind::Callable(decl) ==> ({
                let fresh = ItemId { package: Option::None, item: old(assigner).next_id };
                &&& nfind(final(self).names.table@, decl.name.id) == Option::Some(
                    Res::Item(fresh, spec_attr_status(item.attrs@)),
                )
                &&& (old(self).curr_scope_chain@.len() > 0 ==> smap_view(
                    final(self).locals.scopes@[old(self).curr_scope_chain@.last() as int].terms@,
                ) == sset(
                    smap_view(
                        old(self).locals.scopes@[old(self).curr_scope_chain@.last() as int].terms@,
                    ),
                    decl.name.name@,
                    fresh,
                ))
            }),
            item.kind matches ast::ItemKind::Ty(name) ==> nfind(
                final(self).names.table@,
                name.id,
            ) == Option::Some(
                Res::Item(
                    ItemId { package: Option::None, item: old(assigner).next_id },
                    spec_attr_status(item.attrs@),
                ),
            ),
    {
        match &item.kind {
            ast::ItemKind::Open(name, alias) => self.bind_open(name, alias),
            ast::ItemKind::Callable(decl) => {
                let id = intrapackage(assigner.next_item());
                let status = item_status_from_attrs(&item.attrs);
                self.names.insert(decl.name.id, Res::Item(id, status));
                match self.current_scope_id() {
                    Option::Some(sid) => {
                        let scope = &mut self.locals.scopes[sid];
                        smap_set(&mut scope.terms, decl.name.name.clone(), id);
                    },
                    Option::None => {},
                }
            },
            ast::ItemKind::Ty(name) => {
                let id = intrapackage(assigner.next_item());
                let status = item_status_from_attrs(&item.attrs);
                self.names.insert(name.id, Res::Item(id, status));
                match self.current_scope_id() {
                    Option::Some(sid) => {
                        let scope = &mut self.locals.scopes[sid];
                        smap_set(&mut scope.tys, name.name.clone(), id);
                        smap_set(&mut scope.terms, name.name.clone(), id);
                    },
                    Option::None => {},
                }
            },
            ast::ItemKind::Invalid => {},
        }
    }

    /// Binds a callable's type parameters in the innermost scope.
    pub fn bind_type_parameters(&mut self, decl: &ast::CallableDecl)
        requires
            old(self).wf(),
        ensures
            final(self).wf(),
    {
        let mut ix: usize = 0;
        while ix < decl.generics.len()
            invariant
                self.wf(),
                ix <= decl.generics@.len(),
            decreases decl.generics@.len() - ix,
        {
            let ident = &decl.generics[ix];
            match self.current_scope_id() {
                Option::Some(sid) => {
                    let scope = &mut self.locals.scopes[sid];
                    smap_set(&mut scope.ty_vars, ident.name.clone(), ix);
                },
                Option::None => {},
            }
            self.names.insert(ident.id, Res::Param(ix));
            ix = ix + 1;
        }
    }

    /// Opens a scope of a kind over a span and makes it the innermost.
    pub fn push_scope(&mut self, span: Span, kind: ScopeKind)
        requires
            old(self).wf(),
        ensures
            final(self).wf(),
            final(self).curr_scope_chain@.len() == old(self).curr_scope_chain@.len() + 1,
    {
        let scope_id = self.locals.push_scope(Scope::new(kind, span));
        self.curr_scope_chain.push(scope_id);
    }

    /// Closes the innermost scope; the scope stays retained for offset
    /// queries.
    pub fn pop_scope(&mut self)
        requires
            old(self).wf(),
        ensures
            final(self).wf(),
            old(self).curr_scope_chain@.len() > 0 ==> final(self).curr_scope_chain@ == old(
                self,
            ).curr_scope_chain@.drop_last(),
    {
        let _ = self.curr_scope_chain.pop();
    }
}

} // verus!
