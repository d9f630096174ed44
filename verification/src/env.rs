//! The environment: a stack of lexical scopes binding local variables.
//!
//! Lookup walks scopes from the innermost outward and takes the first
//! binding. Each scope keeps one entry per variable id, in insertion order,
//! and remembers the call depth at which it was pushed, so the debugger can
//! enumerate the variables of one frame, innermost scope first.

use vstd::prelude::*;
use crate::fir::{LocalVarId, Mutability};
use crate::span::Span;
use crate::val::{Val, Value, clone_value, ty_name_of};

verus! {

/// A bound variable.
pub struct Variable {
    pub name: String,
    pub value: Value,
    pub mutability: Mutability,
    pub span: Span,
}

/// The mathematical view of a binding.
pub ghost struct VarV {
    pub name: Seq<char>,
    pub value: Val,
    pub mutability: Mutability,
    pub span: Span,
}

impl View for Variable {
    type V = VarV;

    open spec fn view(&self) -> VarV {
        VarV { name: self.name@, value: self.value@, mutability: self.mutability, span: self.span }
    }
}

impl Variable {
    pub fn is_mutable(&self) -> (r: bool)
        ensures
            r == (self.mutability is Mutable),
    {
        match self.mutability {
            Mutability::Mutable => true,
            Mutability::Immutable => false,
        }
    }
}

/// One variable of a frame, as the debugger reports it.
pub struct VariableInfo {
    pub value: Value,
    pub name: String,
    pub ty_name: String,
    pub mutability: Mutability,
    pub span: Span,
}

/// The mathematical view of a reported variable.
pub ghost struct VarInfoV {
    pub value: Val,
    pub name: Seq<char>,
    pub ty_name: Seq<char>,
    pub mutability: Mutability,
    pub span: Span,
}

impl View for VariableInfo {
    type V = VarInfoV;

    open spec fn view(&self) -> VarInfoV {
        VarInfoV {
            value: self.value@,
            name: self.name@,
            ty_name: self.ty_name@,
            mutability: self.mutability,
            span: self.span,
        }
    }
}

/// One lexical scope: bindings in insertion order, one entry per id, and
/// the call depth at which the scope was pushed.
pub struct Scope {
    pub bindings: Vec<(LocalVarId, Variable)>,
    pub frame_id: usize,
}

/// The views of a scope's bindings, in order.
pub open spec fn bindings_view(s: Seq<(LocalVarId, Variable)>) -> Seq<(LocalVarId, VarV)> {
    Seq::new(s.len(), |i: int| (s[i].0, s[i].1@))
}

/// The first binding of an id in a scope's list.
pub open spec fn assoc_find(s: Seq<(LocalVarId, VarV)>, id: LocalVarId) -> Option<VarV>
    decreases s.len(),
{
    if s.len() == 0 {
        Option::None
    } else if s[0].0 == id {
        Option::Some(s[0].1)
    } else {
        assoc_find(s.drop_first(), id)
    }
}

/// Binding an id: the existing entry is replaced in place, a new id is
/// appended.
pub open spec fn assoc_set(s: Seq<(LocalVarId, VarV)>, id: LocalVarId, v: VarV) -> Seq<
    (LocalVarId, VarV),
>
    decreases s.len(),
{
    if s.len() == 0 {
        seq![(id, v)]
    } else if s[0].0 == id {
        s.update(0, (id, v))
    } else {
        seq![s[0]].add(assoc_set(s.drop_first(), id, v))
    }
}

impl Scope {
    pub open spec fn bview(self) -> Seq<(LocalVarId, VarV)> {
        bindings_view(self.bindings@)
    }

    /// A fresh scope at the given call depth.
    pub fn new(frame_id: usize) -> (r: Scope)
        ensures
            r.frame_id == frame_id,
            r.bview() =~= Seq::<(LocalVarId, VarV)>::empty(),
    {
        Scope { bindings: Vec::new(), frame_id }
    }

    /// The position of an id's binding in this scope, if any.
    fn find_index(&self, id: LocalVarId) -> (r: Option<usize>)
        ensures
            match r {
                Option::Some(i) => i < self.bindings@.len() && self.bindings@[i as int].0 == id
                    && forall|j: int|
                    0 <= j < i ==> (#[trigger] self.bindings@[j]).0 != id,
                Option::None => forall|i: int|
                    0 <= i < self.bindings@.len() ==> (#[trigger] self.bindings@[i]).0 != id,
            },
    {
        let mut i: usize = 0;
        while i < self.bindings.len()
            invariant
                i <= self.bindings@.len(),
                forall|j: int| 0 <= j < i ==> (#[trigger] self.bindings@[j]).0 != id,
            decreases self.bindings@.len() - i,
        {
            if self.bindings[i].0 == id {
                return Some(i);
            }
            i = i + 1;
        }
        None
    }

    /// Binds an id in this scope, replacing an existing binding in place.
    pub fn insert(&mut self, id: LocalVarId, var: Variable)
        ensures
            final(self).frame_id == old(self).frame_id,
            final(self).bview() == assoc_set(old(self).bview(), id, var@),
    {
        let ghost vview = var@;
        match self.find_index(id) {
            Option::Some(i) => {
                proof {
                    lemma_assoc_set_prefix_miss(old(self).bview(), id, vview, i as int);
                }
                self.bindings.set(i, (id, var));
                proof {
                    assert(self.bview() =~= old(self).bview().update(i as int, (id, vview)));
                }
            },
            Option::None => {
                proof {
                    lemma_assoc_set_missing(old(self).bview(), id, vview);
                }
                self.bindings.push((id, var));
                proof {
                    assert(self.bview() =~= old(self).bview().push((id, vview)));
                }
            },
        }
    }
}

/// Replacing the entry at the first position holding an id updates that
/// position in place.
proof fn lemma_assoc_set_prefix_miss(s: Seq<(LocalVarId, VarV)>, id: LocalVarId, v: VarV, i: int)
    requires
        0 <= i < s.len(),
        s[i].0 == id,
        forall|j: int| 0 <= j < i ==> (#[trigger] s[j]).0 != id,
    ensures
        assoc_set(s, id, v) == s.update(i, (id, v)),
    decreases s.len(),
{
    if i == 0 {
    } else {
        assert(s[0].0 != id);
        lemma_assoc_set_prefix_miss(s.drop_first(), id, v, i - 1);
        assert(seq![s[0]].add(s.drop_first().update(i - 1, (id, v))) =~= s.update(i, (id, v)));
    }
}

/// Binding an absent id appends it.
proof fn lemma_assoc_set_missing(s: Seq<(LocalVarId, VarV)>, id: LocalVarId, v: VarV)
    requires
        forall|j: int| 0 <= j < s.len() ==> (#[trigger] s[j]).0 != id,
    ensures
        assoc_set(s, id, v) == s.push((id, v)),
    decreases s.len(),
{
    if s.len() == 0 {
        assert(assoc_set(s, id, v) =~= s.push((id, v)));
    } else {
        lemma_assoc_set_missing(s.drop_first(), id, v);
        assert(seq![s[0]].add(s.drop_first().push((id, v))) =~= s.push((id, v)));
    }
}

/// A position holding the id, with no earlier one, is what the find
/// returns.
proof fn lemma_assoc_find_at(s: Seq<(LocalVarId, VarV)>, idx: int, id: LocalVarId)
    requires
        0 <= idx < s.len(),
        s[idx].0 == id,
        forall|j: int| 0 <= j < idx ==> (#[trigger] s[j]).0 != id,
    ensures
        assoc_find(s, id) == Option::Some(s[idx].1),
    decreases s.len(),
{
    if idx > 0 {
        lemma_assoc_find_at(s.drop_first(), idx - 1, id);
    }
}

/// A list in which no position holds the id finds nothing.
proof fn lemma_assoc_find_none(s: Seq<(LocalVarId, VarV)>, id: LocalVarId)
    requires
        forall|j: int| 0 <= j < s.len() ==> (#[trigger] s[j]).0 != id,
    ensures
        assoc_find(s, id) is None,
    decreases s.len(),
{
    if s.len() > 0 {
        lemma_assoc_find_none(s.drop_first(), id);
    }
}

/// Finds an id's binding in a scope.
fn scope_find<'a>(scope: &'a Scope, id: LocalVarId) -> (r: Option<&'a Variable>)
    ensures
        match r {
            Option::Some(v) => assoc_find(scope.bview(), id) == Option::Some(v@),
            Option::None => assoc_find(scope.bview(), id) is None,
        },
{
    let mut j: usize = 0;
    proof {
        assert(scope.bview().skip(0) =~= scope.bview());
    }
    while j < scope.bindings.len()
        invariant
            j <= scope.bindings@.len(),
            assoc_find(scope.bview(), id) == assoc_find(scope.bview().skip(j as int), id),
        decreases scope.bindings@.len() - j,
    {
        proof {
            assert(scope.bview().skip(j as int)[0] == scope.bview()[j as int]);
            assert(scope.bview().skip(j as int).drop_first() =~= scope.bview().skip(j as int + 1));
        }
        if scope.bindings[j].0 == id {
            return Some(&scope.bindings[j].1);
        }
        j = j + 1;
    }
    proof {
        assert(scope.bview().skip(scope.bindings@.len() as int) =~= Seq::<
            (LocalVarId, VarV),
        >::empty());
    }
    None
}

/// The stack of scopes; never empty while evaluation runs, with the root
/// scope at the bottom.
pub struct Env(pub Vec<Scope>);

/// The innermost binding of an id across a stack of scopes.
pub open spec fn env_find(scopes: Seq<Scope>, id: LocalVarId) -> Option<VarV>
    decreases scopes.len(),
{
    if scopes.len() == 0 {
        Option::None
    } else {
        match assoc_find(scopes.last().bview(), id) {
            Option::Some(v) => Option::Some(v),
            Option::None => env_find(scopes.drop_last(), id),
        }
    }
}

/// The outcome of writing through a binding.
#[derive(Clone, Copy, Debug, PartialEq, Eq, Structural)]
pub enum BindOutcome {
    Updated,
    NotFound,
    Immutable,
}

/// The scopes' frame tags and binding layout are untouched: same depth,
/// same frame ids, same bound ids, names, spans and mutabilities in the
/// same order; at most the value bound to `id` differs.
pub open spec fn layout_preserved(pre: Seq<Scope>, post: Seq<Scope>, id: LocalVarId) -> bool {
    &&& post.len() == pre.len()
    &&& forall|k: int|
        0 <= k < pre.len() ==> {
            &&& (#[trigger] post[k]).frame_id == pre[k].frame_id
            &&& post[k].bview().len() == pre[k].bview().len()
            &&& forall|l: int|
                0 <= l < pre[k].bview().len() ==> {
                    &&& (#[trigger] post[k].bview()[l]).0 == pre[k].bview()[l].0
                    &&& post[k].bview()[l].1.name == pre[k].bview()[l].1.name
                    &&& post[k].bview()[l].1.span == pre[k].bview()[l].1.span
                    &&& post[k].bview()[l].1.mutability == pre[k].bview()[l].1.mutability
                    &&& (pre[k].bview()[l].0 != id ==> post[k].bview()[l].1.value
                        == pre[k].bview()[l].1.value)
                }
        }
}

impl Env {
    pub open spec fn depth(self) -> nat {
        self.0@.len()
    }

    /// A fresh environment holding one root scope.
    pub fn new_env() -> (r: Env)
        ensures
            r.depth() == 1,
            r.0@[0].bview() =~= Seq::<(LocalVarId, VarV)>::empty(),
            r.0@[0].frame_id == 0,
    {
        let mut scopes: Vec<Scope> = Vec::new();
        scopes.push(Scope::new(0));
        Env(scopes)
    }

    /// Appends a fresh scope tagged with the current call depth.
    pub fn push_scope(&mut self, frame_id: usize)
        ensures
            final(self).depth() == old(self).depth() + 1,
            final(self).0@.drop_last() == old(self).0@,
            final(self).0@.last().frame_id == frame_id,
            final(self).0@.last().bview() =~= Seq::<(LocalVarId, VarV)>::empty(),
    {
        self.0.push(Scope::new(frame_id));
        proof {
            assert(self.0@.drop_last() =~= old(self).0@);
        }
    }

    /// Pops the innermost scope; leaving a scope never entered reports
    /// false.
    pub fn leave_scope(&mut self) -> (r: bool)
        ensures
            r == (old(self).depth() > 0),
            old(self).depth() > 0 ==> final(self).0@ == old(self).0@.drop_last(),
            old(self).depth() == 0 ==> final(self).0@ == old(self).0@,
    {
        if self.0.len() > 0 {
            let _ = self.0.pop();
            true
        } else {
            false
        }
    }

    /// Reads the innermost binding of an id: its value and mutability.
    pub fn get(&self, id: LocalVarId) -> (r: Option<(Value, Mutability)>)
        ensures
            match r {
                Option::Some(p) => env_find(self.0@, id) matches Option::Some(v) && p.0@ == v.value
                    && p.1 == v.mutability,
                Option::None => env_find(self.0@, id) is None,
            },
    {
        let n = self.0.len();
        let mut i: usize = n;
        proof {
            assert(self.0@.take(n as int) =~= self.0@);
        }
        while i > 0
            invariant
                i <= n,
                n == self.0@.len(),
                env_find(self.0@, id) == env_find(self.0@.take(i as int), id),
            decreases i,
        {
            i = i - 1;
            proof {
                assert(self.0@.take(i as int + 1).last() == self.0@[i as int]);
                assert(self.0@.take(i as int + 1).drop_last() =~= self.0@.take(i as int));
            }
            match scope_find(&self.0[i], id) {
                Option::Some(var) => {
                    let value = clone_value(&var.value);
                    return Some((value, var.mutability));
                },
                Option::None => {},
            }
        }
        proof {
            assert(self.0@.take(0) =~= Seq::<Scope>::empty());
        }
        None
    }

    /// Reads an id's mutability and whether its value is an array, without
    /// copying the value.
    pub fn get_meta(&self, id: LocalVarId) -> (r: Option<(Mutability, bool)>)
        ensures
            match r {
                Option::Some(p) => env_find(self.0@, id) matches Option::Some(v) && p.0
                    == v.mutability && p.1 == (v.value is Array),
                Option::None => env_find(self.0@, id) is None,
            },
    {
        let n = self.0.len();
        let mut i: usize = n;
        proof {
            assert(self.0@.take(n as int) =~= self.0@);
        }
        while i > 0
            invariant
                i <= n,
                n == self.0@.len(),
                env_find(self.0@, id) == env_find(self.0@.take(i as int), id),
            decreases i,
        {
            i = i - 1;
            proof {
                assert(self.0@.take(i as int + 1).last() == self.0@[i as int]);
                assert(self.0@.take(i as int + 1).drop_last() =~= self.0@.take(i as int));
            }
            match scope_find(&self.0[i], id) {
                Option::Some(var) => {
                    let is_arr = match &var.value {
                        Value::Array(_) => true,
                        _ => false,
                    };
                    return Some((var.mutability, is_arr));
                },
                Option::None => {},
            }
        }
        proof {
            assert(self.0@.take(0) =~= Seq::<Scope>::empty());
        }
        None
    }

    /// Binds a variable in the innermost scope; reports false when no scope
    /// exists.
    pub fn bind(&mut self, id: LocalVarId, var: Variable) -> (r: bool)
        ensures
            r == (old(self).depth() > 0),
            final(self).depth() == old(self).depth(),
            old(self).depth() > 0 ==> final(self).0@.last().frame_id
                == old(self).0@.last().frame_id && final(self).0@.last().bview() == assoc_set(
                old(self).0@.last().bview(),
                id,
                var@,
            ) && final(self).0@.drop_last() == old(self).0@.drop_last(),
            old(self).depth() == 0 ==> final(self).0@ == old(self).0@,
    {
        match self.0.pop() {
            Option::Some(mut scope) => {
                scope.insert(id, var);
                self.0.push(scope);
                proof {
                    assert(self.0@.drop_last() =~= old(self).0@.drop_last());
                }
                true
            },
            Option::None => false,
        }
    }

    /// Writes a value through the innermost binding of an id: refused when
    /// the id is unbound or the binding is immutable. The new value is
    /// what the innermost lookup then returns; every other binding keeps
    /// its value, and the scope layout is untouched.
    pub fn assign(&mut self, id: LocalVarId, value: Value) -> (r: BindOutcome)
        ensures
            match r {
                BindOutcome::Updated => {
                    &&& env_find(old(self).0@, id) matches Option::Some(v) && v.mutability
                        is Mutable
                    &&& env_find(final(self).0@, id) matches Option::Some(v2) && v2.value == value@
                        && v2.mutability is Mutable
                    &&& forall|id2: LocalVarId|
                        id2 != id ==> #[trigger] env_find(final(self).0@, id2) == env_find(
                            old(self).0@,
                            id2,
                        )
                    &&& layout_preserved(old(self).0@, final(self).0@, id)
                },
                BindOutcome::NotFound => env_find(old(self).0@, id) is None && final(self).0@
                    == old(self).0@,
                BindOutcome::Immutable => (env_find(old(self).0@, id) matches Option::Some(v)
                    && v.mutability is Immutable) && final(self).0@ == old(self).0@,
            },
    {
        let n = self.0.len();
        let mut i: usize = n;
        while i > 0
            invariant
                i <= n,
                n == self.0@.len(),
                self == old(self),
                forall|j: int|
                    i <= j < n ==> assoc_find((#[trigger] self.0@[j]).bview(), id) is None,
            decreases i,
        {
            i = i - 1;
            let found = self.0[i].find_index(id);
            match found {
                Option::Some(idx) => {
                    proof {
                        lemma_assoc_find_at(self.0@[i as int].bview(), idx as int, id);
                        lemma_env_find_parts(self.0@, self.0@, i as int, id);
                    }
                    let ghost oldvar = self.0@[i as int].bview()[idx as int].1;
                    if !self.0[i].bindings[idx].1.is_mutable() {
                        return BindOutcome::Immutable;
                    }
                    let scope = &mut self.0[i];
                    let name = scope.bindings[idx].1.name.clone();
                    let span = scope.bindings[idx].1.span;
                    scope.bindings.set(
                        idx,
                        (id, Variable { name, value, mutability: Mutability::Mutable, span }),
                    );
                    proof {
                        assert(self.0@[i as int].bview() =~= old(self).0@[i as int].bview().update(
                            idx as int,
                            (id, self.0@[i as int].bview()[idx as int].1),
                        ));
                        lemma_env_assign(
                            old(self).0@,
                            self.0@,
                            i as int,
                            idx as int,
                            id,
                            oldvar,
                            self.0@[i as int].bview()[idx as int].1,
                        );
                    }
                    return BindOutcome::Updated;
                },
                Option::None => {
                    proof {
                        lemma_assoc_find_none(self.0@[i as int].bview(), id);
                    }
                },
            }
        }
        proof {
            lemma_env_find_all_none(self.0@, id);
        }
        BindOutcome::NotFound
    }

    /// Every variable of every scope pushed at the given call depth, the
    /// innermost scope first, each scope's bindings in insertion order.
    pub fn get_variables_in_frame(&self, frame_id: usize) -> (r: Vec<VariableInfo>)
        ensures
            views_of_infos(r@) == frame_vars(self.0@, frame_id),
    {
        let mut out: Vec<VariableInfo> = Vec::new();
        let n = self.0.len();
        let mut i: usize = n;
        proof {
            assert(self.0@.take(n as int) =~= self.0@);
            assert(views_of_infos(out@) =~= Seq::<VarInfoV>::empty());
        }
        while i > 0
            invariant
                i <= n,
                n == self.0@.len(),
                frame_vars(self.0@, frame_id) == views_of_infos(out@).add(
                    frame_vars(self.0@.take(i as int), frame_id),
                ),
            decreases i,
        {
            i = i - 1;
            proof {
                lemma_frame_vars_step(self.0@, i as int, frame_id);
            }
            if self.0[i].frame_id == frame_id {
                let ghost pre = out@;
                let mut part = scope_collect(&self.0[i]);
                let ghost partv = part@;
                out.append(&mut part);
                proof {
                    assert(views_of_infos(out@) =~= views_of_infos(pre).add(
                        views_of_infos(partv),
                    ));
                    assert(views_of_infos(pre).add(
                        scope_infos(self.0@[i as int]).add(
                            frame_vars(self.0@.take(i as int), frame_id),
                        ),
                    ) =~= views_of_infos(pre).add(scope_infos(self.0@[i as int])).add(
                        frame_vars(self.0@.take(i as int), frame_id),
                    ));
                }
            }
        }
        proof {
            assert(self.0@.take(0) =~= Seq::<Scope>::empty());
            assert(frame_vars(self.0@.take(0), frame_id) =~= Seq::<VarInfoV>::empty());
            assert(views_of_infos(out@).add(Seq::<VarInfoV>::empty()) =~= views_of_infos(out@));
        }
        out
    }

    /// The variables of the frame the innermost scope belongs to.
    pub fn get_variables_in_top_frame(&self) -> (r: Vec<VariableInfo>)
        ensures
            self.0@.len() > 0 ==> views_of_infos(r@) == frame_vars(
                self.0@,
                self.0@.last().frame_id,
            ),
            self.0@.len() == 0 ==> r@.len() == 0,
    {
        if self.0.len() > 0 {
            let fid = self.0[self.0.len() - 1].frame_id;
            self.get_variables_in_frame(fid)
        } else {
            Vec::new()
        }
    }
}

/// The views of reported variables.
pub open spec fn views_of_infos(s: Seq<VariableInfo>) -> Seq<VarInfoV> {
    Seq::new(s.len(), |i: int| s[i]@)
}

/// When every scope misses an id, so does the stack lookup.
proof fn lemma_env_find_all_none(scopes: Seq<Scope>, id: LocalVarId)
    requires
        forall|j: int|
            0 <= j < scopes.len() ==> assoc_find((#[trigger] scopes[j]).bview(), id) is None,
    ensures
        env_find(scopes, id) is None,
    decreases scopes.len(),
{
    if scopes.len() > 0 {
        lemma_env_find_all_none(scopes.drop_last(), id);
    }
}

/// Collects one scope's bindings in reported form.
fn scope_collect(scope: &Scope) -> (r: Vec<VariableInfo>)
    ensures
        views_of_infos(r@) == scope_infos(*scope),
{
    let mut out: Vec<VariableInfo> = Vec::new();
    let mut j: usize = 0;
    while j < scope.bindings.len()
        invariant
            j <= scope.bindings@.len(),
            out@.len() == j,
            forall|l: int| 0 <= l < j ==> #[trigger] out@[l]@ == scope_infos(*scope)[l],
        decreases scope.bindings@.len() - j,
    {
        let var = &scope.bindings[j].1;
        let tn = var.value.ty_name();
        let mut tns = String::new();
        crate::val::str_push(&mut tns, tn);
        let info = VariableInfo {
            name: var.name.clone(),
            ty_name: tns,
            value: clone_value(&var.value),
            mutability: var.mutability,
            span: var.span,
        };
        out.push(info);
        j = j + 1;
    }
    proof {
        assert(views_of_infos(out@) =~= scope_infos(*scope));
    }
    out
}

/// The reported form of one scope's bindings, in order.
pub open spec fn scope_infos(s: Scope) -> Seq<VarInfoV> {
    Seq::new(
        s.bview().len(),
        |l: int|
            VarInfoV {
                value: s.bview()[l].1.value,
                name: s.bview()[l].1.name,
                ty_name: ty_name_of(s.bview()[l].1.value),
                mutability: s.bview()[l].1.mutability,
                span: s.bview()[l].1.span,
            },
    )
}

/// The variables of every scope with the given frame tag, innermost scope
/// first.
pub open spec fn frame_vars(scopes: Seq<Scope>, frame_id: usize) -> Seq<VarInfoV>
    decreases scopes.len(),
{
    if scopes.len() == 0 {
        Seq::<VarInfoV>::empty()
    } else if scopes.last().frame_id == frame_id {
        scope_infos(scopes.last()).add(frame_vars(scopes.drop_last(), frame_id))
    } else {
        frame_vars(scopes.drop_last(), frame_id)
    }
}

/// One step of the frame walk, at scope `i` counted from the bottom.
proof fn lemma_frame_vars_step(scopes: Seq<Scope>, i: int, frame_id: usize)
    requires
        0 <= i < scopes.len(),
    ensures
        scopes[i].frame_id == frame_id ==> frame_vars(scopes.take(i + 1), frame_id) == scope_infos(
            scopes[i],
        ).add(frame_vars(scopes.take(i), frame_id)),
        scopes[i].frame_id != frame_id ==> frame_vars(scopes.take(i + 1), frame_id) == frame_vars(
            scopes.take(i),
            frame_id,
        ),
{
    assert(scopes.take(i + 1).last() == scopes[i]);
    assert(scopes.take(i + 1).drop_last() =~= scopes.take(i));
}

/// Writing one binding's value in one scope changes the innermost lookup of
/// that id and nothing else.
proof fn lemma_env_assign(
    pre: Seq<Scope>,
    post: Seq<Scope>,
    i: int,
    idx: int,
    id: LocalVarId,
    oldvar: VarV,
    newvar: VarV,
)
    requires
        0 <= i < pre.len(),
        post.len() == pre.len(),
        forall|k: int| 0 <= k < pre.len() && k != i ==> post[k] == pre[k],
        0 <= idx < pre[i].bview().len(),
        pre[i].bview()[idx].0 == id,
        forall|j: int| 0 <= j < idx ==> (#[trigger] pre[i].bview()[j]).0 != id,
        post[i].frame_id == pre[i].frame_id,
        post[i].bview() == pre[i].bview().update(idx, (id, newvar)),
        forall|j: int|
            i < j < pre.len() ==> assoc_find((#[trigger] pre[j]).bview(), id) is None,
        newvar.name == oldvar.name && newvar.span == oldvar.span && newvar.mutability
            == oldvar.mutability,
        oldvar == pre[i].bview()[idx].1,
    ensures
        env_find(post, id) == Option::Some(newvar),
        forall|id2: LocalVarId|
            id2 != id ==> #[trigger] env_find(post, id2) == env_find(pre, id2),
        layout_preserved(pre, post, id),
{
    lemma_assoc_find_update(pre[i].bview(), idx, id, newvar);
    lemma_env_find_parts(pre, post, i, id);
    assert forall|id2: LocalVarId| id2 != id implies #[trigger] env_find(post, id2) == env_find(
        pre,
        id2,
    ) by {
        lemma_assoc_find_update_other(pre[i].bview(), idx, id, newvar, id2);
        lemma_env_find_congruent(pre, post, id2);
    }
}

/// Updating the first position holding an id makes the find return the new
/// binding.
proof fn lemma_assoc_find_update(s: Seq<(LocalVarId, VarV)>, idx: int, id: LocalVarId, v: VarV)
    requires
        0 <= idx < s.len(),
        s[idx].0 == id,
        forall|j: int| 0 <= j < idx ==> (#[trigger] s[j]).0 != id,
    ensures
        assoc_find(s.update(idx, (id, v)), id) == Option::Some(v),
    decreases s.len(),
{
    if idx == 0 {
        assert(s.update(0, (id, v))[0] == (id, v));
    } else {
        assert(s.update(idx, (id, v))[0] == s[0]);
        lemma_assoc_find_update(s.drop_first(), idx - 1, id, v);
        assert(s.update(idx, (id, v)).drop_first() =~= s.drop_first().update(idx - 1, (id, v)));
    }
}

/// Updating one id's binding leaves every other id's find unchanged.
proof fn lemma_assoc_find_update_other(
    s: Seq<(LocalVarId, VarV)>,
    idx: int,
    id: LocalVarId,
    v: VarV,
    id2: LocalVarId,
)
    requires
        0 <= idx < s.len(),
        s[idx].0 == id,
        id2 != id,
    ensures
        assoc_find(s.update(idx, (id, v)), id2) == assoc_find(s, id2),
    decreases s.len(),
{
    if idx == 0 {
        assert(s.update(0, (id, v))[0] == (id, v));
        assert(s.update(0, (id, v)).drop_first() =~= s.drop_first());
    } else {
        assert(s.update(idx, (id, v))[0] == s[0]);
        lemma_assoc_find_update_other(s.drop_first(), idx - 1, id, v, id2);
        assert(s.update(idx, (id, v)).drop_first() =~= s.drop_first().update(idx - 1, (id, v)));
    }
}

/// When the scopes above `i` miss an id and scope `i` hits it, the stack
/// lookup returns scope `i`'s binding.
proof fn lemma_env_find_parts(pre: Seq<Scope>, post: Seq<Scope>, i: int, id: LocalVarId)
    requires
        0 <= i < pre.len(),
        post.len() == pre.len(),
        forall|k: int| 0 <= k < pre.len() && k != i ==> post[k] == pre[k],
        forall|j: int|
            i < j < pre.len() ==> assoc_find((#[trigger] pre[j]).bview(), id) is None,
        assoc_find(post[i].bview(), id) is Some,
    ensures
        env_find(post, id) == assoc_find(post[i].bview(), id),
    decreases post.len(),
{
    if i == post.len() - 1 {
        assert(post.last() == post[i]);
    } else {
        assert(post.last() == pre.last());
        assert(assoc_find(post.last().bview(), id) is None);
        lemma_env_find_parts(pre.drop_last(), post.drop_last(), i, id);
        assert(post.drop_last()[i] == post[i]);
    }
}

/// Stacks equal scope for scope look ids up identically.
proof fn lemma_env_find_congruent(pre: Seq<Scope>, post: Seq<Scope>, id2: LocalVarId)
    requires
        post.len() == pre.len(),
        forall|k: int|
            0 <= k < pre.len() ==> assoc_find((#[trigger] post[k]).bview(), id2) == assoc_find(
                pre[k].bview(),
                id2,
            ),
    ensures
        env_find(post, id2) == env_find(pre, id2),
    decreases pre.len(),
{
    if pre.len() > 0 {
        lemma_env_find_congruent(pre.drop_last(), post.drop_last(), id2);
        assert(forall|k: int|
            0 <= k < pre.len() - 1 ==> #[trigger] pre.drop_last()[k] == pre[k]);
        assert(forall|k: int|
            0 <= k < post.len() - 1 ==> #[trigger] post.drop_last()[k] == post[k]);
        assert(post.last() == post[post.len() - 1]);
        assert(pre.last() == pre[pre.len() - 1]);
    }
}

} // verus!
