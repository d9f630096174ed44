//! The continuation engine: the explicit continuation, action, value and
//! call stacks, and the driver that steps them.
//!
//! Control flow is never host recursion: the driver pops one continuation
//! at a time, scheduling sub-expressions and firing deferred actions whose
//! operands already sit on the value stack. The engine's well-formedness —
//! one pending action per action continuation, one call frame per frame
//! continuation — is an invariant of every step, and the scope balance
//! between the continuation stack and the environment is preserved, which
//! is what makes a completed run leave the environment exactly as deep as
//! it started.

use vstd::prelude::*;
use crate::FunctorApp;
use crate::error::{Error, Failure, Fault};
use crate::fir::{
    BinOp, BlockId, ExprId, Field, LocalVarId, Mutability, PackageId, PatId, StmtId, StoreItemId,
    UnOp,
};
use crate::span::{Span, PackageSpan};
use crate::val::Value;
use crate::env::Env;

verus! {

/// An entry of the continuation stack.
#[derive(Clone, Copy, Debug)]
pub enum Cont {
    /// Fire the top of the action stack.
    Action,
    /// Schedule this expression.
    Expr(ExprId),
    /// Leave the current call frame, truncating the value stack back to
    /// this length while preserving the result on top.
    Frame(usize),
    /// Leave the current environment scope.
    Scope,
    /// Schedule this statement.
    Stmt(StmtId),
}

/// A deferred operation; its operands are on the value stack when it fires.
#[derive(Clone, Debug)]
pub enum Action {
    Array(usize),
    ArrayAppendInPlace(ExprId),
    ArrayRepeat(Span),
    Assign(ExprId),
    Bind(PatId, Mutability),
    BinOp(BinOp, Span, Option<ExprId>),
    Call(Span, Span),
    Consume,
    Fail(Span),
    Field(Field),
    If(ExprId, Option<ExprId>),
    Index(Span),
    Range(bool, bool, bool),
    Return,
    StringConcat(usize),
    StringLit(String),
    Tuple(usize),
    UnOp(UnOp),
    UpdateField(Field),
    UpdateIndex(Span),
    UpdateIndexInPlace(ExprId, Span),
    While(ExprId, BlockId),
}

/// An entry of the call stack.
#[derive(Clone, Copy, Debug)]
pub struct Frame {
    pub span: Span,
    pub id: StoreItemId,
    pub caller: PackageId,
    pub functor: FunctorApp,
}

/// The type of step to take during evaluation.
#[derive(Debug, Copy, Clone, Eq, PartialEq, Structural)]
pub enum StepAction {
    Next,
    In,
    Out,
    Continue,
}

/// The result of an evaluation step.
#[derive(Debug)]
pub enum StepResult {
    BreakpointHit(StmtId),
    Next,
    StepIn,
    StepOut,
    Return(Value),
}

/// An id either representing a statement or an expression to be evaluated.
#[derive(Clone, Copy, Debug)]
pub enum EvalId {
    Expr(ExprId),
    Stmt(StmtId),
}

/// How many action continuations a stack holds.
pub open spec fn count_action(cs: Seq<Cont>) -> nat
    decreases cs.len(),
{
    if cs.len() == 0 {
        0
    } else {
        count_action(cs.drop_last()) + if cs.last() is Action {
            1nat
        } else {
            0nat
        }
    }
}

/// How many scope continuations a stack holds.
pub open spec fn count_scope(cs: Seq<Cont>) -> nat
    decreases cs.len(),
{
    if cs.len() == 0 {
        0
    } else {
        count_scope(cs.drop_last()) + if cs.last() is Scope {
            1nat
        } else {
            0nat
        }
    }
}

/// How many frame continuations a stack holds.
pub open spec fn count_frame(cs: Seq<Cont>) -> nat
    decreases cs.len(),
{
    if cs.len() == 0 {
        0
    } else {
        count_frame(cs.drop_last()) + if cs.last() is Frame {
            1nat
        } else {
            0nat
        }
    }
}

/// The index of the topmost frame continuation, the one a return leaves.
pub open spec fn last_frame_idx(cs: Seq<Cont>) -> int
    decreases cs.len(),
{
    if cs.len() == 0 {
        -1
    } else if cs.last() is Frame {
        cs.len() - 1
    } else {
        last_frame_idx(cs.drop_last())
    }
}

/// When any frame continuation is present, `last_frame_idx` names the
/// topmost one: it is in range, a frame, and nothing above it is a frame.
pub proof fn lemma_last_frame_idx(cs: Seq<Cont>)
    requires
        count_frame(cs) > 0,
    ensures
        0 <= last_frame_idx(cs) < cs.len(),
        cs[last_frame_idx(cs)] is Frame,
        forall|i: int| last_frame_idx(cs) < i < cs.len() ==> !(cs[i] is Frame),
    decreases cs.len(),
{
    if cs.len() > 0 && !(cs.last() is Frame) {
        lemma_last_frame_idx(cs.drop_last());
        assert forall|i: int| last_frame_idx(cs) < i < cs.len() implies !(cs[i] is Frame) by {
            if i < cs.len() - 1 {
                assert(cs.drop_last()[i] == cs[i]);
            }
        }
    }
}

/// Pushing one continuation raises exactly the matching count.
pub broadcast proof fn lemma_count_push(cs: Seq<Cont>, c: Cont)
    ensures
        #[trigger] count_action(cs.push(c)) == count_action(cs) + if c is Action {
            1nat
        } else {
            0nat
        },
        count_scope(cs.push(c)) == count_scope(cs) + if c is Scope {
            1nat
        } else {
            0nat
        },
        count_frame(cs.push(c)) == count_frame(cs) + if c is Frame {
            1nat
        } else {
            0nat
        },
{
    assert(cs.push(c).drop_last() =~= cs);
}

/// Appending expression continuations raises no count.
pub broadcast proof fn lemma_count_add_exprs(cs: Seq<Cont>, more: Seq<Cont>)
    requires
        forall|i: int| 0 <= i < more.len() ==> (#[trigger] more[i]) is Expr,
    ensures
        #[trigger] count_action(cs.add(more)) == count_action(cs),
        count_scope(cs.add(more)) == count_scope(cs),
        count_frame(cs.add(more)) == count_frame(cs),
    decreases more.len(),
{
    if more.len() == 0 {
        assert(cs.add(more) =~= cs);
    } else {
        lemma_count_add_exprs(cs, more.drop_last());
        assert(cs.add(more).drop_last() =~= cs.add(more.drop_last()));
        assert(cs.add(more).last() == more.last());
    }
}

/// The expression continuations of a list of ids, scheduled in reverse so
/// that they evaluate left to right.
pub open spec fn rev_expr_conts(s: Seq<ExprId>) -> Seq<Cont> {
    Seq::new(s.len(), |i: int| Cont::Expr(s[s.len() - 1 - i]))
}

/// The continuations a range literal schedules: its collecting action,
/// then the present endpoints so they evaluate start, step, end.
pub open spec fn range_conts(cs: Seq<Cont>, start: Option<ExprId>, step: Option<ExprId>, end:
    Option<ExprId>) -> Seq<Cont> {
    let with_end = match end {
        Option::Some(e) => cs.push(Cont::Action).push(Cont::Expr(e)),
        Option::None => cs.push(Cont::Action),
    };
    let with_step = match step {
        Option::Some(st) => with_end.push(Cont::Expr(st)),
        Option::None => with_end,
    };
    match start {
        Option::Some(st) => with_step.push(Cont::Expr(st)),
        Option::None => with_step,
    }
}

/// The evaluator's state: the continuation, action, value and call stacks,
/// the package evaluation currently reads nodes from, the span of the node
/// being evaluated, and the classical generator for intrinsics.
pub struct State {
    pub cont_stack: Vec<Cont>,
    pub action_stack: Vec<Action>,
    pub vals: Vec<Value>,
    pub package: PackageId,
    pub call_stack: Vec<Frame>,
    pub current_span: Span,
    pub rng: rand::rngs::StdRng,
}

impl State {
    /// One pending action per action continuation, one call frame per
    /// frame continuation.
    pub open spec fn wf(self) -> bool {
        &&& count_action(self.cont_stack@) == self.action_stack@.len()
        &&& count_frame(self.cont_stack@) == self.call_stack@.len()
    }

    /// How much deeper the environment is than the scope continuations
    /// pending on the stack; every step preserves it.
    pub open spec fn balance(self, env: Env) -> int {
        env.depth() - count_scope(self.cont_stack@)
    }

    /// A fresh state for evaluating nodes of a package, optionally seeding
    /// the classical generator.
    pub fn new(package: PackageId, classical_seed: Option<u64>) -> (r: State)
        ensures
            r.wf(),
            r.cont_stack@.len() == 0,
            r.action_stack@.len() == 0,
            r.vals@.len() == 0,
            r.call_stack@.len() == 0,
            r.package == package,
    {
        let rng = match classical_seed {
            Option::Some(seed) => crate::host::rng_from_seed(seed),
            Option::None => crate::host::rng_from_entropy(),
        };
        State {
            cont_stack: Vec::new(),
            action_stack: Vec::new(),
            vals: Vec::new(),
            package,
            call_stack: Vec::new(),
            current_span: Span { lo: 0, hi: 0 },
            rng,
        }
    }

    /// Pops the topmost continuation.
    fn pop_cont(&mut self) -> (r: Option<Cont>)
        ensures
            old(self).cont_stack@.len() == 0 ==> r is None && final(self).cont_stack@ == old(self).cont_stack@,
            old(self).cont_stack@.len() > 0 ==> r == Option::Some(old(self).cont_stack@.last())
                && final(self).cont_stack@ == old(self).cont_stack@.drop_last(),
            final(self).action_stack@ == old(self).action_stack@,
            final(self).vals@ == old(self).vals@,
            final(self).call_stack@ == old(self).call_stack@,
            final(self).package == old(self).package,
            final(self).current_span == old(self).current_span,
    {
        self.cont_stack.pop()
    }

    /// Schedules an action: an action continuation paired with the action.
    fn push_action(&mut self, action: Action)
        ensures
            final(self).cont_stack@ == old(self).cont_stack@.push(Cont::Action),
            final(self).action_stack@ == old(self).action_stack@.push(action),
            final(self).vals@ == old(self).vals@,
            final(self).call_stack@ == old(self).call_stack@,
            final(self).package == old(self).package,
            final(self).current_span == old(self).current_span,
    {
        self.cont_stack.push(Cont::Action);
        self.action_stack.push(action);
    }

    /// Schedules an expression.
    fn push_expr(&mut self, expr: ExprId)
        ensures
            final(self).cont_stack@ == old(self).cont_stack@.push(Cont::Expr(expr)),
            final(self).action_stack@ == old(self).action_stack@,
            final(self).vals@ == old(self).vals@,
            final(self).call_stack@ == old(self).call_stack@,
            final(self).package == old(self).package,
            final(self).current_span == old(self).current_span,
    {
        self.cont_stack.push(Cont::Expr(expr));
    }

    /// Schedules a statement.
    fn push_stmt(&mut self, stmt: StmtId)
        ensures
            final(self).cont_stack@ == old(self).cont_stack@.push(Cont::Stmt(stmt)),
            final(self).action_stack@ == old(self).action_stack@,
            final(self).vals@ == old(self).vals@,
            final(self).call_stack@ == old(self).call_stack@,
            final(self).package == old(self).package,
            final(self).current_span == old(self).current_span,
    {
        self.cont_stack.push(Cont::Stmt(stmt));
    }

    /// Schedules expressions in reverse, so they evaluate left to right.
    fn push_exprs(&mut self, exprs: &Vec<ExprId>)
        ensures
            final(self).cont_stack@ == old(self).cont_stack@.add(rev_expr_conts(exprs@)),
            final(self).action_stack@ == old(self).action_stack@,
            final(self).vals@ == old(self).vals@,
            final(self).call_stack@ == old(self).call_stack@,
            final(self).package == old(self).package,
            final(self).current_span == old(self).current_span,
    {
        let n = exprs.len();
        let mut i: usize = n;
        proof {
            assert(old(self).cont_stack@.add(rev_expr_conts(exprs@).take(0)) =~= old(self).cont_stack@);
        }
        while i > 0
            invariant
                i <= n,
                n == exprs@.len(),
                self.cont_stack@ == old(self).cont_stack@.add(
                    rev_expr_conts(exprs@).take(n - i),
                ),
                self.action_stack@ == old(self).action_stack@,
                self.vals@ == old(self).vals@,
                self.call_stack@ == old(self).call_stack@,
                self.package == old(self).package,
                self.current_span == old(self).current_span,
                self.rng == old(self).rng,
            decreases i,
        {
            i = i - 1;
            self.cont_stack.push(Cont::Expr(exprs[i]));
            proof {
                assert(rev_expr_conts(exprs@)[n - i - 1] == Cont::Expr(exprs@[i as int]));
                assert(old(self).cont_stack@.add(rev_expr_conts(exprs@).take(n - i)) =~= old(self).cont_stack@.add(rev_expr_conts(exprs@).take(n - i - 1)).push(
                    Cont::Expr(exprs@[i as int]),
                ));
            }
        }
        proof {
            assert(rev_expr_conts(exprs@).take(n as int) =~= rev_expr_conts(exprs@));
        }
    }

    /// Pushes a value.
    fn push_val(&mut self, val: Value)
        ensures
            final(self).cont_stack@ == old(self).cont_stack@,
            final(self).action_stack@ == old(self).action_stack@,
            final(self).vals@ == old(self).vals@.push(val),
            final(self).call_stack@ == old(self).call_stack@,
            final(self).package == old(self).package,
            final(self).current_span == old(self).current_span,
    {
        self.vals.push(val);
    }

    /// Pops the top value; an empty stack is an engine fault.
    fn pop_val(&mut self) -> (r: Result<Value, Fault>)
        ensures
            final(self).cont_stack@ == old(self).cont_stack@,
            final(self).action_stack@ == old(self).action_stack@,
            final(self).call_stack@ == old(self).call_stack@,
            final(self).package == old(self).package,
            final(self).current_span == old(self).current_span,
            match r {
                Ok(v) => old(self).vals@.len() > 0 && v == old(self).vals@.last() && final(self).vals@ == old(self).vals@.drop_last(),
                Err(f) => old(self).vals@.len() == 0 && f == Fault::StackUnderflow && final(self).vals@ == old(self).vals@,
            },
    {
        match self.vals.pop() {
            Option::Some(v) => Ok(v),
            Option::None => Err(Fault::StackUnderflow),
        }
    }

    /// Pops the top `len` values, in evaluation order.
    fn pop_vals(&mut self, len: usize) -> (r: Result<Vec<Value>, Fault>)
        ensures
            final(self).cont_stack@ == old(self).cont_stack@,
            final(self).action_stack@ == old(self).action_stack@,
            final(self).call_stack@ == old(self).call_stack@,
            final(self).package == old(self).package,
            final(self).current_span == old(self).current_span,
            match r {
                Ok(vs) => old(self).vals@.len() >= len && vs@ == old(self).vals@.skip(
                    old(self).vals@.len() - len,
                ) && final(self).vals@ == old(self).vals@.take(old(self).vals@.len() - len),
                Err(f) => old(self).vals@.len() < len && f == Fault::StackUnderflow && final(self).vals@ == old(self).vals@,
            },
    {
        if self.vals.len() < len {
            return Err(Fault::StackUnderflow);
        }
        let at = self.vals.len() - len;
        let chunk = self.vals.split_off(at);
        Ok(chunk)
    }

    /// Moves evaluation to a span, within the current package.
    pub open spec fn spec_global_span(self, span: Span) -> PackageSpan {
        PackageSpan { package: self.package, span }
    }

    /// The span, qualified with the current package.
    fn to_global_span(&self, span: Span) -> (r: PackageSpan)
        ensures
            r == self.spec_global_span(span),
    {
        PackageSpan { package: self.package, span }
    }
}


impl State {
    /// Enters a call frame: records the caller, points evaluation at the
    /// callee's package, and leaves a frame continuation that will restore
    /// the value stack to its current length plus the result.
    fn push_frame(&mut self, id: StoreItemId, functor: FunctorApp)
        ensures
            final(self).cont_stack@ == old(self).cont_stack@.push(
                Cont::Frame(old(self).vals@.len() as usize),
            ),
            final(self).action_stack@ == old(self).action_stack@,
            final(self).vals@ == old(self).vals@,
            final(self).call_stack@ == old(self).call_stack@.push(
                Frame {
                    span: old(self).current_span,
                    id,
                    caller: old(self).package,
                    functor,
                },
            ),
            final(self).package == id.package,
            final(self).current_span == old(self).current_span,
    {
        self.call_stack.push(
            Frame { span: self.current_span, id, caller: self.package, functor },
        );
        self.cont_stack.push(Cont::Frame(self.vals.len()));
        self.package = id.package;
    }

    /// Leaves a call frame: restores the caller's package and truncates the
    /// value stack back to the recorded length, keeping the result on top.
    fn leave_frame(&mut self, len: usize) -> (r: Result<(), Fault>)
        ensures
            final(self).cont_stack@ == old(self).cont_stack@,
            final(self).action_stack@ == old(self).action_stack@,
            final(self).current_span == old(self).current_span,
            r is Ok <==> old(self).call_stack@.len() > 0 && old(self).vals@.len() > len,
            match r {
                Ok(()) => {
                    &&& final(self).call_stack@ == old(self).call_stack@.drop_last()
                    &&& final(self).package == old(self).call_stack@.last().caller
                    &&& final(self).vals@ == old(self).vals@.take(len as int).push(
                        old(self).vals@.last(),
                    )
                },
                Err(f) => final(self).call_stack@ == old(self).call_stack@ && final(self).vals@
                    == old(self).vals@ && final(self).package == old(self).package && (f
                    == Fault::MissingFrame || f == Fault::StackUnderflow),
            },
    {
        let frame = match self.call_stack.pop() {
            Option::Some(frame) => frame,
            Option::None => {
                return Err(Fault::MissingFrame);
            },
        };
        if self.vals.len() == 0 || self.vals.len() <= len {
            self.call_stack.push(frame);
            proof {
                assert(self.call_stack@ =~= old(self).call_stack@);
            }
            return Err(Fault::StackUnderflow);
        }
        let frame_val = match self.vals.pop() {
            Option::Some(v) => v,
            Option::None => {
                return Err(Fault::StackUnderflow);
            },
        };
        self.package = frame.caller;
        self.vals.truncate(len);
        self.vals.push(frame_val);
        Ok(())
    }

    /// Enters a lexical scope, tagged with the current call depth, leaving
    /// a scope continuation that will close it.
    fn push_scope(&mut self, env: &mut Env)
        ensures
            final(self).cont_stack@ == old(self).cont_stack@.push(Cont::Scope),
            final(self).action_stack@ == old(self).action_stack@,
            final(self).vals@ == old(self).vals@,
            final(self).call_stack@ == old(self).call_stack@,
            final(self).package == old(self).package,
            final(self).current_span == old(self).current_span,
            final(env).depth() == old(env).depth() + 1,
            final(env).0@.drop_last() == old(env).0@,
            final(env).0@.last().frame_id == old(self).call_stack@.len(),
            final(env).0@.last().bview() =~= Seq::<(LocalVarId, crate::env::VarV)>::empty(),
    {
        env.push_scope(self.call_stack.len());
        self.cont_stack.push(Cont::Scope);
    }

    /// Schedules a block: enters a scope, schedules the statements in
    /// reverse with a consuming action between them, and keeps the last
    /// statement's value as the block's value; an empty block is `Unit`.
    fn push_block(&mut self, env: &mut Env, store: &crate::fir::PackageStore, block: BlockId)
        requires
            store.wf(),
            old(self).wf(),
            store.valid_block(old(self).package, block),
        ensures
            final(self).wf(),
            final(self).package == old(self).package,
            final(self).current_span == old(self).current_span,
            final(self).call_stack@ == old(self).call_stack@,
            count_scope(final(self).cont_stack@) == count_scope(old(self).cont_stack@) + 1,
            final(env).depth() == old(env).depth() + 1,
            final(self).vals@ == old(self).vals@ || (final(self).vals@.drop_last() == old(self).vals@ && final(self).vals@.last()@ == crate::val::Val::Unit),
    {
        let stmts = &store.get_block(self.package, block).stmts;
        let ghost pre0 = *self;
        self.push_scope(env);
        proof {
            lemma_count_push(pre0.cont_stack@, Cont::Scope);
        }
        let n = stmts.len();
        let mut i: usize = n;
        while i > 0
            invariant
                i <= n,
                n == stmts@.len(),
                self.wf(),
                count_scope(self.cont_stack@) == count_scope(old(self).cont_stack@) + 1,
                self.vals@ == old(self).vals@,
                self.call_stack@ == old(self).call_stack@,
                self.package == old(self).package,
                self.current_span == old(self).current_span,
            decreases i,
        {
            i = i - 1;
            let ghost pre = *self;
            self.push_stmt(stmts[i]);
            proof {
                lemma_count_push(pre.cont_stack@, Cont::Stmt(stmts@[i as int]));
            }
            if i != 0 {
                let ghost pre2 = *self;
                self.push_action(Action::Consume);
                proof {
                    lemma_count_push(pre2.cont_stack@, Cont::Action);
                }
            }
        }
        if n == 0 {
            self.push_val(Value::unit());
        }
    }
}


/// Whether an expression may be updated in place: a variable expression
/// naming a mutable local whose value is an array. (Arrays here are always
/// uniquely owned, so ownership imposes no further condition.)
pub open spec fn spec_updatable_in_place(env: Env, kind: crate::fir::ExprKind) -> bool {
    match kind {
        crate::fir::ExprKind::Var(crate::fir::Res::Local(id)) => match crate::env::env_find(
            env.0@,
            id,
        ) {
            Option::Some(v) => v.mutability is Mutable && v.value is Array,
            Option::None => false,
        },
        _ => false,
    }
}

/// Decides whether an expression may be updated in place.
pub fn is_updatable_in_place(env: &Env, expr: &crate::fir::Expr) -> (r: bool)
    ensures
        r == spec_updatable_in_place(*env, expr.kind),
{
    match &expr.kind {
        crate::fir::ExprKind::Var(crate::fir::Res::Local(id)) => match env.get_meta(*id) {
            Option::Some((m, is_arr)) => matches!(m, Mutability::Mutable) && is_arr,
            Option::None => false,
        },
        _ => false,
    }
}

/// The value a resolution denotes: a global item becomes a callable value,
/// a local is read from the environment.
pub open spec fn spec_resolve_binding(env: Env, package: PackageId, res: crate::fir::Res, span:
    Span) -> Result<crate::val::Val, Failure> {
    match res {
        crate::fir::Res::Invalid => Result::Err(Failure::Fault(Fault::ResolutionError)),
        crate::fir::Res::Item(item) => Result::Ok(
            crate::val::Val::Global(
                StoreItemId {
                    package: match item.package {
                        Option::Some(p) => p,
                        Option::None => package,
                    },
                    item: item.item,
                },
                FunctorApp { adjoint: false, controlled: 0 },
            ),
        ),
        crate::fir::Res::Local(id) => match crate::env::env_find(env.0@, id) {
            Option::Some(v) => Result::Ok(v.value),
            Option::None => Result::Err(
                Failure::Program(Error::UnboundName(PackageSpan { package, span })),
            ),
        },
    }
}

/// Resolves a variable expression to its value.
pub fn resolve_binding(env: &Env, package: PackageId, res: crate::fir::Res, span: Span) -> (r:
    Result<Value, Failure>)
    ensures
        match r {
            Ok(v) => spec_resolve_binding(*env, package, res, span) == Result::<
                crate::val::Val,
                Failure,
            >::Ok(v@),
            Err(f) => spec_resolve_binding(*env, package, res, span) == Result::<
                crate::val::Val,
                Failure,
            >::Err(f),
        },
{
    match res {
        crate::fir::Res::Invalid => Err(Failure::Fault(Fault::ResolutionError)),
        crate::fir::Res::Item(item) => {
            let pkg = match item.package {
                Option::Some(p) => p,
                Option::None => package,
            };
            Ok(
                Value::Global(
                    StoreItemId { package: pkg, item: item.item },
                    FunctorApp { adjoint: false, controlled: 0 },
                ),
            )
        },
        crate::fir::Res::Local(id) => match env.get(id) {
            Option::Some((v, _)) => Ok(v),
            Option::None => Err(
                Failure::Program(Error::UnboundName(PackageSpan { package, span })),
            ),
        },
    }
}

/// The captured values of a closure: each captured id read from the
/// environment, every one of which must be bound.
pub open spec fn spec_captured(env: Env, args: Seq<LocalVarId>) -> Option<Seq<crate::val::Val>> {
    if forall|i: int| 0 <= i < args.len() ==> crate::env::env_find(env.0@, #[trigger] args[i])
        is Some {
        Option::Some(
            Seq::new(args.len(), |i: int| crate::env::env_find(env.0@, args[i])->Some_0.value),
        )
    } else {
        Option::None
    }
}

/// Builds a closure value capturing the named locals.
pub fn resolve_closure(
    env: &Env,
    package: PackageId,
    span: Span,
    args: &Vec<LocalVarId>,
    callable: crate::fir::LocalItemId,
) -> (r: Result<Value, Failure>)
    ensures
        match r {
            Ok(v) => spec_captured(*env, args@) matches Option::Some(vs) && v@
                == crate::val::Val::Closure(
                vs,
                StoreItemId { package, item: callable },
                FunctorApp { adjoint: false, controlled: 0 },
            ),
            Err(f) => spec_captured(*env, args@) is None && f == Failure::Program(
                Error::UnboundName(PackageSpan { package, span }),
            ),
        },
{
    let mut captured: Vec<Value> = Vec::new();
    let mut i: usize = 0;
    while i < args.len()
        invariant
            i <= args@.len(),
            captured@.len() == i,
            forall|j: int|
                0 <= j < i ==> crate::env::env_find(env.0@, #[trigger] args@[j]) is Some,
            forall|j: int|
                0 <= j < i ==> #[trigger] captured@[j]@ == crate::env::env_find(
                    env.0@,
                    args@[j],
                )->Some_0.value,
        decreases args@.len() - i,
    {
        match env.get(args[i]) {
            Option::Some((v, _)) => {
                captured.push(v);
            },
            Option::None => {
                return Err(
                    Failure::Program(Error::UnboundName(PackageSpan { package, span })),
                );
            },
        }
        i = i + 1;
    }
    let result = Value::Closure(
        captured,
        StoreItemId { package, item: callable },
        FunctorApp { adjoint: false, controlled: 0 },
    );
    proof {
        crate::val::lemma_vview_closure(
            result->Closure_0,
            StoreItemId { package, item: callable },
            FunctorApp { adjoint: false, controlled: 0 },
        );
        assert(crate::val::views_of(result->Closure_0@) =~= spec_captured(
            *env,
            args@,
        )->Some_0);
    }
    Ok(result)
}

/// The value of a literal.
pub open spec fn spec_lit_val(lit: crate::fir::Lit) -> crate::val::Val {
    match lit {
        crate::fir::Lit::BigInt(b) => crate::val::Val::BigInt(crate::big::big_val(b)),
        crate::fir::Lit::Bool(b) => crate::val::Val::Bool(b),
        crate::fir::Lit::Double(d) => crate::val::Val::Double(d),
        crate::fir::Lit::Int(i) => crate::val::Val::Int(i),
        crate::fir::Lit::Pauli(p) => crate::val::Val::Pauli(p),
        crate::fir::Lit::Result(r) => crate::val::Val::Result(r),
    }
}

/// Turns a literal into a value.
pub fn lit_to_val(lit: &crate::fir::Lit) -> (r: Value)
    ensures
        r@ == spec_lit_val(*lit),
{
    match lit {
        crate::fir::Lit::BigInt(b) => Value::BigInt(b.clone()),
        crate::fir::Lit::Bool(b) => Value::Bool(*b),
        crate::fir::Lit::Double(d) => Value::Double(*d),
        crate::fir::Lit::Int(i) => Value::Int(*i),
        crate::fir::Lit::Pauli(p) => Value::Pauli(*p),
        crate::fir::Lit::Result(r) => Value::Result(*r),
    }
}

/// The specialization a functor application selects.
#[derive(Clone, Copy, Debug, PartialEq, Eq, Structural)]
pub enum Spec {
    Body,
    Adj,
    Ctl,
    CtlAdj,
}

/// Which specialization a functor application selects: the adjoint flag and
/// the presence of control qubits pick one of the four.
pub open spec fn spec_from_functor_app_spec(functor: FunctorApp) -> Spec {
    if !functor.adjoint && functor.controlled == 0 {
        Spec::Body
    } else if functor.adjoint && functor.controlled == 0 {
        Spec::Adj
    } else if !functor.adjoint {
        Spec::Ctl
    } else {
        Spec::CtlAdj
    }
}

/// Peels the control layers off a controlled call's argument: one
/// two-tuple per control application, whose first component is an array of
/// control qubits; the collected controls come outermost first, with the
/// innermost remainder.
pub open spec fn spec_peel(args: crate::val::Val, n: nat) -> Option<
    (Seq<crate::val::Val>, crate::val::Val),
>
    decreases n,
{
    if n == 0 {
        Option::Some((Seq::<crate::val::Val>::empty(), args))
    } else {
        match args {
            crate::val::Val::Tuple(pair) => if pair.len() == 2 {
                match pair[0] {
                    crate::val::Val::Array(ctls) => match spec_peel(pair[1], (n - 1) as nat) {
                        Option::Some((rest_ctls, rest)) => Option::Some(
                            (ctls.add(rest_ctls), rest),
                        ),
                        Option::None => Option::None,
                    },
                    _ => Option::None,
                }
            } else {
                Option::None
            },
            _ => Option::None,
        }
    }
}

/// The value a callee's declaration pattern binds: any captured values
/// prefixed onto the remaining argument.
pub open spec fn spec_merged(fixed_args: Option<Vec<Value>>, arg: crate::val::Val)
    -> crate::val::Val {
    match fixed_args {
        Option::Some(fixed) => crate::val::Val::Tuple(crate::val::views_of(fixed@).push(arg)),
        Option::None => arg,
    }
}

/// The bindings one pattern adds when matched against a value: the
/// innermost scope's association list after the match, or `None` on a
/// fault — a tuple pattern against a non-tuple value, or an exhausted
/// recursion budget. A `Bind` binds the whole value under its identifier,
/// a `Discard` binds nothing, and a tuple pattern binds positionally,
/// pairwise up to the shorter of pattern row and value row.
pub open spec fn spec_bind_pat(
    store: crate::fir::PackageStore,
    package: PackageId,
    pat: PatId,
    val: crate::val::Val,
    mutability: Mutability,
    b: Seq<(LocalVarId, crate::env::VarV)>,
    fuel: nat,
) -> Option<Seq<(LocalVarId, crate::env::VarV)>>
    decreases fuel, 0int,
{
    if fuel == 0 {
        Option::None
    } else {
        match store.spec_pat(package, pat).kind {
            crate::fir::PatKind::Bind(ident) => Option::Some(
                crate::env::assoc_set(
                    b,
                    ident.id,
                    crate::env::VarV {
                        name: ident.name@,
                        value: val,
                        mutability,
                        span: ident.span,
                    },
                ),
            ),
            crate::fir::PatKind::Discard => Option::Some(b),
            crate::fir::PatKind::Tuple(pats) => match val {
                crate::val::Val::Tuple(items) => spec_bind_seq(
                    store,
                    package,
                    pats@,
                    items,
                    mutability,
                    b,
                    (fuel - 1) as nat,
                    if pats@.len() < items.len() {
                        pats@.len() as int
                    } else {
                        items.len() as int
                    },
                    0,
                ),
                _ => Option::None,
            },
        }
    }
}

/// The bindings a row of patterns adds against a row of values, from
/// position `i` up to `n`, threading the association list left to right.
pub open spec fn spec_bind_seq(
    store: crate::fir::PackageStore,
    package: PackageId,
    pats: Seq<PatId>,
    items: Seq<crate::val::Val>,
    mutability: Mutability,
    b: Seq<(LocalVarId, crate::env::VarV)>,
    fuel: nat,
    n: int,
    i: int,
) -> Option<Seq<(LocalVarId, crate::env::VarV)>>
    decreases fuel, n - i + 1,
{
    if i < 0 || i >= n {
        Option::Some(b)
    } else {
        match spec_bind_pat(store, package, pats[i], items[i], mutability, b, fuel) {
            Option::Some(b2) => spec_bind_seq(
                store,
                package,
                pats,
                items,
                mutability,
                b2,
                fuel,
                n,
                i + 1,
            ),
            Option::None => Option::None,
        }
    }
}

/// What binding a controlled specialization's arguments achieves when the
/// peel succeeds: the innermost scope gains the bindings of the
/// specialization's pattern against the collected controls and then of the
/// declaration's pattern against the merged remainder, both immutable; a
/// binding fault refuses the call.
pub open spec fn spec_ctl_bind_outcome(
    store: crate::fir::PackageStore,
    package: PackageId,
    spec_p: PatId,
    decl_pat: PatId,
    args: crate::val::Val,
    n: nat,
    fixed_args: Option<Vec<Value>>,
    pre_last: Seq<(LocalVarId, crate::env::VarV)>,
    post_last: Seq<(LocalVarId, crate::env::VarV)>,
    ok: bool,
) -> bool {
    let fuel = store.packages@[package as int].pats.len() as nat;
    match spec_peel(args, n) {
        Option::Some((ctls, rest)) => match spec_bind_pat(
            store,
            package,
            spec_p,
            crate::val::Val::Array(ctls),
            Mutability::Immutable,
            pre_last,
            fuel,
        ) {
            Option::Some(b1) => match spec_bind_pat(
                store,
                package,
                decl_pat,
                spec_merged(fixed_args, rest),
                Mutability::Immutable,
                b1,
                fuel,
            ) {
                Option::Some(b2) => ok && post_last == b2,
                Option::None => !ok,
            },
            Option::None => !ok,
        },
        Option::None => true,
    }
}

/// What binding an uncontrolled call's argument achieves: the innermost
/// scope gains the bindings of the declaration's pattern against the
/// merged argument, immutable; a binding fault refuses the call.
pub open spec fn spec_plain_bind_outcome(
    store: crate::fir::PackageStore,
    package: PackageId,
    decl_pat: PatId,
    args: crate::val::Val,
    fixed_args: Option<Vec<Value>>,
    pre_last: Seq<(LocalVarId, crate::env::VarV)>,
    post_last: Seq<(LocalVarId, crate::env::VarV)>,
    ok: bool,
) -> bool {
    let fuel = store.packages@[package as int].pats.len() as nat;
    match spec_bind_pat(
        store,
        package,
        decl_pat,
        spec_merged(fixed_args, args),
        Mutability::Immutable,
        pre_last,
        fuel,
    ) {
        Option::Some(bnd) => ok && post_last == bnd,
        Option::None => !ok,
    }
}

/// The callable a value denotes: a global or a closure, with its functor
/// application state.
pub open spec fn spec_callee_of(v: crate::val::Val) -> Option<(StoreItemId, FunctorApp)> {
    match v {
        crate::val::Val::Global(id, functor) => Option::Some((id, functor)),
        crate::val::Val::Closure(_, id, functor) => Option::Some((id, functor)),
        _ => Option::None,
    }
}

/// The specialization declaration a functor application selects out of a
/// callable's implementations, when it is declared.
pub open spec fn spec_selected(s: crate::fir::Specialized, functor: FunctorApp) -> Option<
    crate::fir::SpecDecl,
> {
    match spec_from_functor_app_spec(functor) {
        Spec::Body => Option::Some(s.body),
        Spec::Adj => s.adj,
        Spec::Ctl => s.ctl,
        Spec::CtlAdj => s.ctl_adj,
    }
}

/// Selects the specialization a functor application calls for.
pub fn spec_from_functor_app(functor: FunctorApp) -> (r: Spec)
    ensures
        r == spec_from_functor_app_spec(functor),
{
    if !functor.adjoint && functor.controlled == 0 {
        Spec::Body
    } else if functor.adjoint && functor.controlled == 0 {
        Spec::Adj
    } else if !functor.adjoint {
        Spec::Ctl
    } else {
        Spec::CtlAdj
    }
}

/// Prefixes a closure's captured arguments onto a call argument, making
/// the tuple the callee's input pattern binds.
pub fn merge_fixed_args(fixed_args: Option<Vec<Value>>, arg: Value) -> (r: Value)
    ensures
        match fixed_args {
            Option::Some(fixed) => r@ == crate::val::Val::Tuple(
                crate::val::views_of(fixed@).push(arg@),
            ),
            Option::None => r@ == arg@,
        },
{
    match fixed_args {
        Option::Some(fixed) => {
            let ghost fv = crate::val::views_of(fixed@);
            let mut items = fixed;
            items.push(arg);
            let result = Value::Tuple(items);
            proof {
                crate::val::lemma_vview_tuple(result->Tuple_0);
                assert(crate::val::views_of(result->Tuple_0@) =~= fv.push(
                    result->Tuple_0@.last()@,
                ));
            }
            result
        },
        Option::None => arg,
    }
}


impl State {
    /// Schedules a tuple: its element expressions left to right, then the
    /// collecting action.
    fn cont_tup(&mut self, tup: &Vec<ExprId>)
        ensures
            final(self).cont_stack@ == old(self).cont_stack@.push(Cont::Action).add(
                rev_expr_conts(tup@),
            ),
            final(self).action_stack@ == old(self).action_stack@.push(
                Action::Tuple(tup@.len() as usize),
            ),
            final(self).vals@ == old(self).vals@,
            final(self).call_stack@ == old(self).call_stack@,
            final(self).package == old(self).package,
            final(self).current_span == old(self).current_span,
    {
        self.push_action(Action::Tuple(tup.len()));
        self.push_exprs(tup);
    }

    /// Schedules an array literal: its element expressions left to right,
    /// then the collecting action.
    fn cont_arr(&mut self, arr: &Vec<ExprId>)
        ensures
            final(self).cont_stack@ == old(self).cont_stack@.push(Cont::Action).add(
                rev_expr_conts(arr@),
            ),
            final(self).action_stack@ == old(self).action_stack@.push(
                Action::Array(arr@.len() as usize),
            ),
            final(self).vals@ == old(self).vals@,
            final(self).call_stack@ == old(self).call_stack@,
            final(self).package == old(self).package,
            final(self).current_span == old(self).current_span,
    {
        self.push_action(Action::Array(arr.len()));
        self.push_exprs(arr);
    }

    /// Schedules a repeated array: the item, then the size, then the
    /// building action carrying the size expression's span.
    fn cont_arr_repeat(&mut self, store: &crate::fir::PackageStore, item: ExprId, size: ExprId)
        requires
            store.valid_expr(old(self).package, size),
        ensures
            final(self).cont_stack@ == old(self).cont_stack@.push(Cont::Action).push(
                Cont::Expr(size),
            ).push(Cont::Expr(item)),
            final(self).action_stack@ == old(self).action_stack@.push(
                Action::ArrayRepeat(store.spec_expr(old(self).package, size).span),
            ),
            final(self).vals@ == old(self).vals@,
            final(self).call_stack@ == old(self).call_stack@,
            final(self).package == old(self).package,
            final(self).current_span == old(self).current_span,
    {
        let size_span = store.get_expr(self.package, size).span;
        self.push_action(Action::ArrayRepeat(size_span));
        self.push_expr(size);
        self.push_expr(item);
    }

    /// Schedules an explicit return: the value, then the unwinding action.
    fn cont_ret(&mut self, expr: ExprId)
        ensures
            final(self).cont_stack@ == old(self).cont_stack@.push(Cont::Action).push(
                Cont::Expr(expr),
            ),
            final(self).action_stack@ == old(self).action_stack@.push(Action::Return),
            final(self).vals@ == old(self).vals@,
            final(self).call_stack@ == old(self).call_stack@,
            final(self).package == old(self).package,
            final(self).current_span == old(self).current_span,
    {
        self.push_action(Action::Return);
        self.push_expr(expr);
    }

    /// Schedules a conditional: the condition, then the branching action.
    fn cont_if(&mut self, cond_expr: ExprId, then_expr: ExprId, else_expr: Option<ExprId>)
        ensures
            final(self).cont_stack@ == old(self).cont_stack@.push(Cont::Action).push(
                Cont::Expr(cond_expr),
            ),
            final(self).action_stack@ == old(self).action_stack@.push(
                Action::If(then_expr, else_expr),
            ),
            final(self).vals@ == old(self).vals@,
            final(self).call_stack@ == old(self).call_stack@,
            final(self).package == old(self).package,
            final(self).current_span == old(self).current_span,
    {
        self.push_action(Action::If(then_expr, else_expr));
        self.push_expr(cond_expr);
    }

    /// Schedules an explicit failure: its message, then the raising action.
    fn cont_fail(&mut self, span: Span, fail_expr: ExprId)
        ensures
            final(self).cont_stack@ == old(self).cont_stack@.push(Cont::Action).push(
                Cont::Expr(fail_expr),
            ),
            final(self).action_stack@ == old(self).action_stack@.push(Action::Fail(span)),
            final(self).vals@ == old(self).vals@,
            final(self).call_stack@ == old(self).call_stack@,
            final(self).package == old(self).package,
            final(self).current_span == old(self).current_span,
    {
        self.push_action(Action::Fail(span));
        self.push_expr(fail_expr);
    }

    /// Schedules an assignment: a unit result now, the right-hand side,
    /// then the assigning action.
    fn cont_assign(&mut self, lhs: ExprId, rhs: ExprId)
        ensures
            final(self).cont_stack@ == old(self).cont_stack@.push(Cont::Action).push(
                Cont::Expr(rhs),
            ),
            final(self).action_stack@ == old(self).action_stack@.push(Action::Assign(lhs)),
            final(self).vals@.len() == old(self).vals@.len() + 1,
            final(self).vals@.drop_last() == old(self).vals@,
            final(self).vals@.last()@ == crate::val::Val::Unit,
            final(self).call_stack@ == old(self).call_stack@,
            final(self).package == old(self).package,
            final(self).current_span == old(self).current_span,
    {
        self.push_action(Action::Assign(lhs));
        self.push_expr(rhs);
        self.push_val(Value::unit());
        proof {
            assert(self.vals@.drop_last() =~= old(self).vals@);
        }
    }

    /// Schedules a field read: the record, then the projecting action.
    fn cont_field(&mut self, expr: ExprId, field: Field)
        ensures
            final(self).cont_stack@ == old(self).cont_stack@.push(Cont::Action).push(
                Cont::Expr(expr),
            ),
            final(self).action_stack@ == old(self).action_stack@.push(Action::Field(field)),
            final(self).vals@ == old(self).vals@,
            final(self).call_stack@ == old(self).call_stack@,
            final(self).package == old(self).package,
            final(self).current_span == old(self).current_span,
    {
        self.push_action(Action::Field(field));
        self.push_expr(expr);
    }

    /// Schedules an index read: the array, then the index, then the action
    /// carrying the index expression's span.
    fn cont_index(&mut self, store: &crate::fir::PackageStore, arr: ExprId, index: ExprId)
        requires
            store.valid_expr(old(self).package, index),
        ensures
            final(self).cont_stack@ == old(self).cont_stack@.push(Cont::Action).push(
                Cont::Expr(index),
            ).push(Cont::Expr(arr)),
            final(self).action_stack@ == old(self).action_stack@.push(
                Action::Index(store.spec_expr(old(self).package, index).span),
            ),
            final(self).vals@ == old(self).vals@,
            final(self).call_stack@ == old(self).call_stack@,
            final(self).package == old(self).package,
            final(self).current_span == old(self).current_span,
    {
        let index_span = store.get_expr(self.package, index).span;
        self.push_action(Action::Index(index_span));
        self.push_expr(index);
        self.push_expr(arr);
    }

    /// Schedules a range literal: the present endpoints left to right, then
    /// the collecting action that knows which were present.
    fn cont_range(&mut self, start: Option<ExprId>, step: Option<ExprId>, end: Option<ExprId>)
        ensures
            final(self).action_stack@ == old(self).action_stack@.push(
                Action::Range(start is Some, step is Some, end is Some),
            ),
            final(self).cont_stack@ == range_conts(old(self).cont_stack@, start, step, end),
            final(self).vals@ == old(self).vals@,
            final(self).call_stack@ == old(self).call_stack@,
            final(self).package == old(self).package,
            final(self).current_span == old(self).current_span,
            count_action(final(self).cont_stack@) == count_action(old(self).cont_stack@) + 1,
            count_scope(final(self).cont_stack@) == count_scope(old(self).cont_stack@),
            count_frame(final(self).cont_stack@) == count_frame(old(self).cont_stack@),
    {
        let ghost c0 = self.cont_stack@;
        self.push_action(Action::Range(start.is_some(), step.is_some(), end.is_some()));
        proof {
            lemma_count_push(c0, Cont::Action);
        }
        match end {
            Option::Some(end) => {
                let ghost c = self.cont_stack@;
                self.push_expr(end);
                proof {
                    lemma_count_push(c, Cont::Expr(end));
                }
            },
            Option::None => {},
        }
        match step {
            Option::Some(step) => {
                let ghost c = self.cont_stack@;
                self.push_expr(step);
                proof {
                    lemma_count_push(c, Cont::Expr(step));
                }
            },
            Option::None => {},
        }
        match start {
            Option::Some(start) => {
                let ghost c = self.cont_stack@;
                self.push_expr(start);
                proof {
                    lemma_count_push(c, Cont::Expr(start));
                }
            },
            Option::None => {},
        }
    }

    /// Schedules a while loop: the condition, then the looping action.
    fn cont_while(&mut self, cond_expr: ExprId, block: BlockId)
        ensures
            final(self).cont_stack@ == old(self).cont_stack@.push(Cont::Action).push(
                Cont::Expr(cond_expr),
            ),
            final(self).action_stack@ == old(self).action_stack@.push(
                Action::While(cond_expr, block),
            ),
            final(self).vals@ == old(self).vals@,
            final(self).call_stack@ == old(self).call_stack@,
            final(self).package == old(self).package,
            final(self).current_span == old(self).current_span,
    {
        self.push_action(Action::While(cond_expr, block));
        self.push_expr(cond_expr);
    }

    /// Schedules a call: the callee, then the arguments, then the calling
    /// action carrying both spans.
    fn cont_call(&mut self, store: &crate::fir::PackageStore, callee: ExprId, args: ExprId)
        requires
            store.valid_expr(old(self).package, callee),
            store.valid_expr(old(self).package, args),
        ensures
            final(self).cont_stack@ == old(self).cont_stack@.push(Cont::Action).push(
                Cont::Expr(args),
            ).push(Cont::Expr(callee)),
            final(self).action_stack@ == old(self).action_stack@.push(
                Action::Call(
                    store.spec_expr(old(self).package, callee).span,
                    store.spec_expr(old(self).package, args).span,
                ),
            ),
            final(self).vals@ == old(self).vals@,
            final(self).call_stack@ == old(self).call_stack@,
            final(self).package == old(self).package,
            final(self).current_span == old(self).current_span,
    {
        let callee_span = store.get_expr(self.package, callee).span;
        let args_span = store.get_expr(self.package, args).span;
        self.push_action(Action::Call(callee_span, args_span));
        self.push_expr(args);
        self.push_expr(callee);
    }

    /// Schedules a binary operation. Logical operations evaluate only the
    /// left side now, the action holding the right for short-circuiting;
    /// all others evaluate both sides left to right.
    fn cont_binop(&mut self, store: &crate::fir::PackageStore, op: BinOp, rhs: ExprId, lhs:
        ExprId)
        requires
            store.valid_expr(old(self).package, rhs),
        ensures
            (op is AndL || op is OrL) ==> final(self).cont_stack@ == old(self).cont_stack@.push(
                Cont::Action,
            ).push(Cont::Expr(lhs)) && final(self).action_stack@ == old(self).action_stack@.push(
                Action::BinOp(
                    op,
                    store.spec_expr(old(self).package, rhs).span,
                    Option::Some(rhs),
                ),
            ),
            !(op is AndL || op is OrL) ==> final(self).cont_stack@ == old(self).cont_stack@.push(
                Cont::Action,
            ).push(Cont::Expr(rhs)).push(Cont::Expr(lhs)) && final(self).action_stack@ == old(self).action_stack@.push(
                Action::BinOp(op, store.spec_expr(old(self).package, rhs).span, Option::None),
            ),
            final(self).vals@ == old(self).vals@,
            final(self).call_stack@ == old(self).call_stack@,
            final(self).package == old(self).package,
            final(self).current_span == old(self).current_span,
    {
        let rhs_span = store.get_expr(self.package, rhs).span;
        match op {
            BinOp::AndL | BinOp::OrL => {
                self.push_action(Action::BinOp(op, rhs_span, Some(rhs)));
                self.push_expr(lhs);
            },
            _ => {
                self.push_action(Action::BinOp(op, rhs_span, None));
                self.push_expr(rhs);
                self.push_expr(lhs);
            },
        }
    }

    /// Schedules a copying index update: the index, then the replacement,
    /// then the array, then the updating action.
    fn update_index(&mut self, store: &crate::fir::PackageStore, lhs: ExprId, mid: ExprId, rhs:
        ExprId)
        requires
            store.valid_expr(old(self).package, mid),
        ensures
            final(self).cont_stack@ == old(self).cont_stack@.push(Cont::Action).push(
                Cont::Expr(lhs),
            ).push(Cont::Expr(rhs)).push(Cont::Expr(mid)),
            final(self).action_stack@ == old(self).action_stack@.push(
                Action::UpdateIndex(store.spec_expr(old(self).package, mid).span),
            ),
            final(self).vals@ == old(self).vals@,
            final(self).call_stack@ == old(self).call_stack@,
            final(self).package == old(self).package,
            final(self).current_span == old(self).current_span,
    {
        let span = store.get_expr(self.package, mid).span;
        self.push_action(Action::UpdateIndex(span));
        self.push_expr(lhs);
        self.push_expr(rhs);
        self.push_expr(mid);
    }

    /// Schedules a unary operation: the operand, then the action.
    fn cont_unop(&mut self, op: UnOp, expr: ExprId)
        ensures
            final(self).cont_stack@ == old(self).cont_stack@.push(Cont::Action).push(
                Cont::Expr(expr),
            ),
            final(self).action_stack@ == old(self).action_stack@.push(Action::UnOp(op)),
            final(self).vals@ == old(self).vals@,
            final(self).call_stack@ == old(self).call_stack@,
            final(self).package == old(self).package,
            final(self).current_span == old(self).current_span,
    {
        self.push_action(Action::UnOp(op));
        self.push_expr(expr);
    }

    /// Schedules a field update: the record, then the replacement, then the
    /// rebuilding action.
    fn cont_update_field(&mut self, record: ExprId, field: Field, replace: ExprId)
        ensures
            final(self).cont_stack@ == old(self).cont_stack@.push(Cont::Action).push(
                Cont::Expr(replace),
            ).push(Cont::Expr(record)),
            final(self).action_stack@ == old(self).action_stack@.push(
                Action::UpdateField(field),
            ),
            final(self).vals@ == old(self).vals@,
            final(self).call_stack@ == old(self).call_stack@,
            final(self).package == old(self).package,
            final(self).current_span == old(self).current_span,
    {
        self.push_action(Action::UpdateField(field));
        self.push_expr(replace);
        self.push_expr(record);
    }

    /// Schedules a string: a single literal is pushed directly; otherwise
    /// the components alternate literal actions and expressions under one
    /// concatenating action.
    fn cont_string(&mut self, components: &Vec<crate::fir::StringComponent>)
        ensures
            final(self).vals@.len() <= old(self).vals@.len() + 1,
            final(self).vals@.len() >= old(self).vals@.len(),
            final(self).vals@.take(old(self).vals@.len() as int) == old(self).vals@,
            final(self).call_stack@ == old(self).call_stack@,
            final(self).package == old(self).package,
            final(self).current_span == old(self).current_span,
            count_action(final(self).cont_stack@) - count_action(old(self).cont_stack@)
                == final(self).action_stack@.len() - old(self).action_stack@.len(),
            count_scope(final(self).cont_stack@) == count_scope(old(self).cont_stack@),
            count_frame(final(self).cont_stack@) == count_frame(old(self).cont_stack@),
    {
        proof {
            assert(old(self).vals@.take(old(self).vals@.len() as int) =~= old(self).vals@);
        }
        if components.len() == 1 {
            let only = &components[0];
            match only {
                crate::fir::StringComponent::Lit(lit) => {
                    self.push_val(Value::String(lit.clone()));
                    proof {
                        assert(self.vals@.take(old(self).vals@.len() as int) =~= old(self).vals@);
                    }
                    return ;
                },
                crate::fir::StringComponent::Expr(_) => {},
            }
        }
        let ghost c0 = self.cont_stack@;
        self.push_action(Action::StringConcat(components.len()));
        proof {
            lemma_count_push(c0, Cont::Action);
        }
        let n = components.len();
        let mut i: usize = n;
        while i > 0
            invariant
                i <= n,
                n == components@.len(),
                self.vals@ == old(self).vals@,
                self.call_stack@ == old(self).call_stack@,
                self.package == old(self).package,
                self.current_span == old(self).current_span,
                count_action(self.cont_stack@) - count_action(old(self).cont_stack@)
                    == self.action_stack@.len() - old(self).action_stack@.len(),
                count_scope(self.cont_stack@) == count_scope(old(self).cont_stack@),
                count_frame(self.cont_stack@) == count_frame(old(self).cont_stack@),
            decreases i,
        {
            i = i - 1;
            match &components[i] {
                crate::fir::StringComponent::Expr(e) => {
                    let ghost c = self.cont_stack@;
                    self.push_expr(*e);
                    proof {
                        lemma_count_push(c, Cont::Expr(*e));
                    }
                },
                crate::fir::StringComponent::Lit(lit) => {
                    let ghost c = self.cont_stack@;
                    self.push_action(Action::StringLit(lit.clone()));
                    proof {
                        lemma_count_push(c, Cont::Action);
                    }
                },
            }
        }
        proof {
            assert(self.vals@.take(old(self).vals@.len() as int) =~= old(self).vals@);
        }
    }
}


/// Every reversed expression continuation is an expression continuation.
pub proof fn lemma_rev_exprs_all(s: Seq<ExprId>)
    ensures
        forall|i: int| 0 <= i < rev_expr_conts(s).len() ==> (#[trigger] rev_expr_conts(s)[i])
            is Expr,
{
}

impl State {
    /// Schedules a compound assignment. An addition whose target is a
    /// mutable array local becomes an in-place append; anything else
    /// evaluates the operation and assigns its result.
    fn cont_assign_op(&mut self, env: &Env, store: &crate::fir::PackageStore, op: BinOp, lhs:
        ExprId, rhs: ExprId)
        requires
            old(self).wf(),
            store.wf(),
            store.valid_expr(old(self).package, lhs),
            store.valid_expr(old(self).package, rhs),
        ensures
            final(self).wf(),
            count_scope(final(self).cont_stack@) == count_scope(old(self).cont_stack@),
            final(self).call_stack@ == old(self).call_stack@,
            final(self).package == old(self).package,
            final(self).current_span == old(self).current_span,
            final(self).vals@.len() == old(self).vals@.len() + 1,
            final(self).vals@.drop_last() == old(self).vals@,
            final(self).vals@.last()@ == crate::val::Val::Unit,
            ({
                let in_place = op is Add && store.spec_expr(old(self).package, lhs).ty is Array
                    && spec_updatable_in_place(*env, store.spec_expr(old(self).package, lhs).kind);
                if in_place {
                    final(self).cont_stack@ == old(self).cont_stack@.push(Cont::Action).push(
                        Cont::Expr(rhs),
                    ) && final(self).action_stack@ == old(self).action_stack@.push(
                        Action::ArrayAppendInPlace(lhs),
                    )
                } else if op is AndL || op is OrL {
                    final(self).cont_stack@ == old(self).cont_stack@.push(Cont::Action).push(
                        Cont::Action,
                    ).push(Cont::Expr(lhs)) && final(self).action_stack@ == old(self).action_stack@.push(Action::Assign(lhs)).push(
                        Action::BinOp(
                            op,
                            store.spec_expr(old(self).package, rhs).span,
                            Option::Some(rhs),
                        ),
                    )
                } else {
                    final(self).cont_stack@ == old(self).cont_stack@.push(Cont::Action).push(
                        Cont::Action,
                    ).push(Cont::Expr(rhs)).push(Cont::Expr(lhs)) && final(self).action_stack@
                        == old(self).action_stack@.push(Action::Assign(lhs)).push(
                        Action::BinOp(
                            op,
                            store.spec_expr(old(self).package, rhs).span,
                            Option::None,
                        ),
                    )
                }
            }),
    {
        let in_place = if matches!(op, BinOp::Add) {
            let expr = store.get_expr(self.package, lhs);
            matches!(expr.ty, crate::fir::Ty::Array) && is_updatable_in_place(env, expr)
        } else {
            false
        };
        if in_place {
            let ghost c0 = self.cont_stack@;
            self.push_action(Action::ArrayAppendInPlace(lhs));
            proof {
                lemma_count_push(c0, Cont::Action);
            }
            let ghost c1 = self.cont_stack@;
            self.push_expr(rhs);
            proof {
                lemma_count_push(c1, Cont::Expr(rhs));
            }
            self.push_val(Value::unit());
        } else {
            let ghost c0 = self.cont_stack@;
            self.push_action(Action::Assign(lhs));
            proof {
                lemma_count_push(c0, Cont::Action);
            }
            let ghost c1 = self.cont_stack@;
            self.cont_binop(store, op, rhs, lhs);
            proof {
                if op is AndL || op is OrL {
                    lemma_count_push(c1, Cont::Action);
                    lemma_count_push(c1.push(Cont::Action), Cont::Expr(lhs));
                } else {
                    lemma_count_push(c1, Cont::Action);
                    lemma_count_push(c1.push(Cont::Action), Cont::Expr(rhs));
                    lemma_count_push(
                        c1.push(Cont::Action).push(Cont::Expr(rhs)),
                        Cont::Expr(lhs),
                    );
                }
            }
            self.push_val(Value::unit());
        }
    }

    /// Schedules a field assignment: the rebuilt record is assigned back.
    fn cont_assign_field(&mut self, record: ExprId, field: Field, replace: ExprId)
        requires
            old(self).wf(),
        ensures
            final(self).wf(),
            count_scope(final(self).cont_stack@) == count_scope(old(self).cont_stack@),
            final(self).call_stack@ == old(self).call_stack@,
            final(self).package == old(self).package,
            final(self).current_span == old(self).current_span,
            final(self).vals@.len() == old(self).vals@.len() + 1,
            final(self).vals@.drop_last() == old(self).vals@,
            final(self).vals@.last()@ == crate::val::Val::Unit,
            final(self).cont_stack@ == old(self).cont_stack@.push(Cont::Action).push(
                Cont::Action,
            ).push(Cont::Expr(replace)).push(Cont::Expr(record)),
            final(self).action_stack@ == old(self).action_stack@.push(
                Action::Assign(record),
            ).push(Action::UpdateField(field)),
    {
        let ghost c0 = self.cont_stack@;
        self.push_action(Action::Assign(record));
        proof {
            lemma_count_push(c0, Cont::Action);
        }
        let ghost c1 = self.cont_stack@;
        self.cont_update_field(record, field, replace);
        proof {
            lemma_count_push(c1, Cont::Action);
            lemma_count_push(c1.push(Cont::Action), Cont::Expr(replace));
            lemma_count_push(
                c1.push(Cont::Action).push(Cont::Expr(replace)),
                Cont::Expr(record),
            );
        }
        self.push_val(Value::unit());
    }

    /// Schedules an index assignment, preferring the in-place update when
    /// the target is a mutable array local.
    fn cont_assign_index(&mut self, env: &Env, store: &crate::fir::PackageStore, lhs: ExprId,
        mid: ExprId, rhs: ExprId)
        requires
            old(self).wf(),
            store.wf(),
            store.valid_expr(old(self).package, lhs),
            store.valid_expr(old(self).package, mid),
        ensures
            final(self).wf(),
            count_scope(final(self).cont_stack@) == count_scope(old(self).cont_stack@),
            final(self).call_stack@ == old(self).call_stack@,
            final(self).package == old(self).package,
            final(self).current_span == old(self).current_span,
            final(self).vals@.len() == old(self).vals@.len() + 1,
            final(self).vals@.drop_last() == old(self).vals@,
            final(self).vals@.last()@ == crate::val::Val::Unit,
            ({
                let in_place = spec_updatable_in_place(
                    *env,
                    store.spec_expr(old(self).package, lhs).kind,
                );
                if in_place {
                    final(self).cont_stack@ == old(self).cont_stack@.push(Cont::Action).push(
                        Cont::Expr(rhs),
                    ).push(Cont::Expr(mid)) && final(self).action_stack@ == old(self).action_stack@.push(
                        Action::UpdateIndexInPlace(
                            lhs,
                            store.spec_expr(old(self).package, mid).span,
                        ),
                    )
                } else {
                    final(self).cont_stack@ == old(self).cont_stack@.push(Cont::Action).push(
                        Cont::Action,
                    ).push(Cont::Expr(lhs)).push(Cont::Expr(rhs)).push(Cont::Expr(mid)) && final(self).action_stack@ == old(self).action_stack@.push(Action::Assign(lhs)).push(
                        Action::UpdateIndex(store.spec_expr(old(self).package, mid).span),
                    )
                }
            }),
    {
        if is_updatable_in_place(env, store.get_expr(self.package, lhs)) {
            let span = store.get_expr(self.package, mid).span;
            let ghost c0 = self.cont_stack@;
            self.push_action(Action::UpdateIndexInPlace(lhs, span));
            proof {
                lemma_count_push(c0, Cont::Action);
            }
            let ghost c1 = self.cont_stack@;
            self.push_expr(rhs);
            proof {
                lemma_count_push(c1, Cont::Expr(rhs));
            }
            let ghost c2 = self.cont_stack@;
            self.push_expr(mid);
            proof {
                lemma_count_push(c2, Cont::Expr(mid));
            }
            self.push_val(Value::unit());
        } else {
            let ghost c0 = self.cont_stack@;
            self.push_action(Action::Assign(lhs));
            proof {
                lemma_count_push(c0, Cont::Action);
            }
            let ghost c1 = self.cont_stack@;
            self.update_index(store, lhs, mid, rhs);
            proof {
                lemma_count_push(c1, Cont::Action);
                lemma_count_push(c1.push(Cont::Action), Cont::Expr(lhs));
                lemma_count_push(
                    c1.push(Cont::Action).push(Cont::Expr(lhs)),
                    Cont::Expr(rhs),
                );
                lemma_count_push(
                    c1.push(Cont::Action).push(Cont::Expr(lhs)).push(Cont::Expr(rhs)),
                    Cont::Expr(mid),
                );
            }
            self.push_val(Value::unit());
        }
    }

    /// Dispatches one expression node: sets the current span and schedules
    /// the node's children in reverse under its terminator action, exactly
    /// as the node's kind requires. Failures here are a failed resolution
    /// (`UnboundName`), or a compilation leftover (`Hole`, a failed `Res`).
    fn cont_expr(&mut self, env: &mut Env, store: &crate::fir::PackageStore, expr: ExprId) -> (r:
        Result<(), Failure>)
        requires
            old(self).wf(),
            store.wf(),
            store.valid_expr(old(self).package, expr),
        ensures
            final(self).wf(),
            final(self).balance(*final(env)) == old(self).balance(*old(env)),
            final(self).call_stack@ == old(self).call_stack@,
            final(self).package == old(self).package,
            final(self).current_span == store.spec_expr(old(self).package, expr).span,
            match r {
                Ok(()) => true,
                Err(f) => match f {
                    Failure::Program(e) => e is UnboundName,
                    Failure::Fault(ft) => ft == Fault::ResolutionError || ft
                        == Fault::UnexpectedHole,
                },
            },
            ({
                let node = store.spec_expr(old(self).package, expr);
                let c0 = old(self).cont_stack@;
                let a0 = old(self).action_stack@;
                let v0 = old(self).vals@;
                let cs = final(self).cont_stack@;
                let as_ = final(self).action_stack@;
                let vs = final(self).vals@;
                match node.kind {
                    crate::fir::ExprKind::Array(items) => cs == c0.push(Cont::Action).add(
                        rev_expr_conts(items@),
                    ) && as_ == a0.push(Action::Array(items@.len() as usize)) && vs == v0,
                    crate::fir::ExprKind::ArrayRepeat(item, size) => cs == c0.push(
                        Cont::Action,
                    ).push(Cont::Expr(size)).push(Cont::Expr(item)) && as_ == a0.push(
                        Action::ArrayRepeat(store.spec_expr(old(self).package, size).span),
                    ) && vs == v0,
                    crate::fir::ExprKind::Assign(lhs, rhs) => cs == c0.push(Cont::Action).push(
                        Cont::Expr(rhs),
                    ) && as_ == a0.push(Action::Assign(lhs)) && vs.len() == v0.len() + 1
                        && vs.drop_last() == v0 && vs.last()@ == crate::val::Val::Unit,
                    crate::fir::ExprKind::AssignOp(op, lhs, rhs) => vs.len() == v0.len() + 1
                        && vs.drop_last() == v0 && vs.last()@ == crate::val::Val::Unit && ({
                        let in_place = op is Add && store.spec_expr(
                            old(self).package,
                            lhs,
                        ).ty is Array && spec_updatable_in_place(
                            *old(env),
                            store.spec_expr(old(self).package, lhs).kind,
                        );
                        if in_place {
                            cs == c0.push(Cont::Action).push(Cont::Expr(rhs)) && as_ == a0.push(
                                Action::ArrayAppendInPlace(lhs),
                            )
                        } else if op is AndL || op is OrL {
                            cs == c0.push(Cont::Action).push(Cont::Action).push(
                                Cont::Expr(lhs),
                            ) && as_ == a0.push(Action::Assign(lhs)).push(
                                Action::BinOp(
                                    op,
                                    store.spec_expr(old(self).package, rhs).span,
                                    Option::Some(rhs),
                                ),
                            )
                        } else {
                            cs == c0.push(Cont::Action).push(Cont::Action).push(
                                Cont::Expr(rhs),
                            ).push(Cont::Expr(lhs)) && as_ == a0.push(Action::Assign(lhs)).push(
                                Action::BinOp(
                                    op,
                                    store.spec_expr(old(self).package, rhs).span,
                                    Option::None,
                                ),
                            )
                        }
                    }),
                    crate::fir::ExprKind::AssignField(record, field, replace) => cs == c0.push(
                        Cont::Action,
                    ).push(Cont::Action).push(Cont::Expr(replace)).push(Cont::Expr(record))
                        && as_.len() == a0.len() + 2 && as_.take(a0.len() as int) == a0 && as_[
                        as_.len() - 2] == Action::Assign(record) && (as_.last() matches
                    Action::UpdateField(f2) && crate::fir::field_eq(f2, field)) && vs.len()
                        == v0.len() + 1 && vs.drop_last() == v0 && vs.last()@
                        == crate::val::Val::Unit,
                    crate::fir::ExprKind::AssignIndex(lhs, mid, rhs) => vs.len() == v0.len() + 1
                        && vs.drop_last() == v0 && vs.last()@ == crate::val::Val::Unit && ({
                        let in_place = spec_updatable_in_place(
                            *old(env),
                            store.spec_expr(old(self).package, lhs).kind,
                        );
                        if in_place {
                            cs == c0.push(Cont::Action).push(Cont::Expr(rhs)).push(
                                Cont::Expr(mid),
                            ) && as_ == a0.push(
                                Action::UpdateIndexInPlace(
                                    lhs,
                                    store.spec_expr(old(self).package, mid).span,
                                ),
                            )
                        } else {
                            cs == c0.push(Cont::Action).push(Cont::Action).push(
                                Cont::Expr(lhs),
                            ).push(Cont::Expr(rhs)).push(Cont::Expr(mid)) && as_ == a0.push(
                                Action::Assign(lhs),
                            ).push(
                                Action::UpdateIndex(
                                    store.spec_expr(old(self).package, mid).span,
                                ),
                            )
                        }
                    }),
                    crate::fir::ExprKind::BinOp(op, lhs, rhs) => vs == v0 && (if op is AndL || op
                        is OrL {
                        cs == c0.push(Cont::Action).push(Cont::Expr(lhs)) && as_ == a0.push(
                            Action::BinOp(
                                op,
                                store.spec_expr(old(self).package, rhs).span,
                                Option::Some(rhs),
                            ),
                        )
                    } else {
                        cs == c0.push(Cont::Action).push(Cont::Expr(rhs)).push(
                            Cont::Expr(lhs),
                        ) && as_ == a0.push(
                            Action::BinOp(
                                op,
                                store.spec_expr(old(self).package, rhs).span,
                                Option::None,
                            ),
                        )
                    }),
                    crate::fir::ExprKind::Block(_) => as_ == a0 || (count_scope(cs)
                        == count_scope(c0) + 1 && final(env).depth() == old(env).depth() + 1 && (
                    vs == v0 || (vs.drop_last() == v0 && vs.last()@ == crate::val::Val::Unit))),
                    crate::fir::ExprKind::Call(callee, args) => cs == c0.push(Cont::Action).push(
                        Cont::Expr(args),
                    ).push(Cont::Expr(callee)) && as_ == a0.push(
                        Action::Call(
                            store.spec_expr(old(self).package, callee).span,
                            store.spec_expr(old(self).package, args).span,
                        ),
                    ) && vs == v0,
                    crate::fir::ExprKind::Closure(args, callable) => cs == c0 && as_ == a0 && (
                    match spec_captured(*old(env), args@) {
                        Option::Some(captured) => r is Ok && vs.len() == v0.len() + 1
                            && vs.drop_last() == v0 && vs.last()@ == crate::val::Val::Closure(
                            captured,
                            StoreItemId { package: old(self).package, item: callable },
                            FunctorApp { adjoint: false, controlled: 0 },
                        ),
                        Option::None => r == Result::<(), Failure>::Err(
                            Failure::Program(
                                Error::UnboundName(old(self).spec_global_span(node.span)),
                            ),
                        ) && vs == v0,
                    }),
                    crate::fir::ExprKind::Fail(e) => cs == c0.push(Cont::Action).push(
                        Cont::Expr(e),
                    ) && as_ == a0.push(Action::Fail(node.span)) && vs == v0,
                    crate::fir::ExprKind::Field(e, field) => cs == c0.push(Cont::Action).push(
                        Cont::Expr(e),
                    ) && as_.len() == a0.len() + 1 && as_.take(a0.len() as int) == a0 && (
                    as_.last() matches Action::Field(f2) && crate::fir::field_eq(f2, field))
                        && vs == v0,
                    crate::fir::ExprKind::Hole => r == Result::<(), Failure>::Err(
                        Failure::Fault(Fault::UnexpectedHole),
                    ) && cs == c0 && as_ == a0 && vs == v0,
                    crate::fir::ExprKind::If(c, t, e) => cs == c0.push(Cont::Action).push(
                        Cont::Expr(c),
                    ) && as_ == a0.push(Action::If(t, e)) && vs == v0,
                    crate::fir::ExprKind::Index(a, i) => cs == c0.push(Cont::Action).push(
                        Cont::Expr(i),
                    ).push(Cont::Expr(a)) && as_ == a0.push(
                        Action::Index(store.spec_expr(old(self).package, i).span),
                    ) && vs == v0,
                    crate::fir::ExprKind::Lit(lit) => cs == c0 && as_ == a0 && vs.len() == v0.len()
                        + 1 && vs.drop_last() == v0 && vs.last()@ == spec_lit_val(lit),
                    crate::fir::ExprKind::Range(start, step, end) => cs == range_conts(
                        c0,
                        start,
                        step,
                        end,
                    ) && as_ == a0.push(Action::Range(start is Some, step is Some, end is Some))
                        && vs == v0,
                    crate::fir::ExprKind::Return(e) => cs == c0.push(Cont::Action).push(
                        Cont::Expr(e),
                    ) && as_ == a0.push(Action::Return) && vs == v0,
                    crate::fir::ExprKind::String(components) => (components.len() == 1
                        && (components[0] matches crate::fir::StringComponent::Lit(lit) && cs
                        == c0 && as_ == a0 && vs.len() == v0.len() + 1 && vs.drop_last() == v0
                        && vs.last()@ == crate::val::Val::String(lit@))) || (vs.len() >= v0.len()
                        && vs.len() <= v0.len() + 1 && vs.take(v0.len() as int) == v0
                        && count_action(cs) - count_action(c0) == as_.len() - a0.len()
                        && count_scope(cs) == count_scope(c0)),
                    crate::fir::ExprKind::Tuple(items) => cs == c0.push(Cont::Action).add(
                        rev_expr_conts(items@),
                    ) && as_ == a0.push(Action::Tuple(items@.len() as usize)) && vs == v0,
                    crate::fir::ExprKind::UnOp(op, e) => cs == c0.push(Cont::Action).push(
                        Cont::Expr(e),
                    ) && as_ == a0.push(Action::UnOp(op)) && vs == v0,
                    crate::fir::ExprKind::UpdateField(record, field, replace) => cs == c0.push(
                        Cont::Action,
                    ).push(Cont::Expr(replace)).push(Cont::Expr(record)) && as_.len() == a0.len()
                        + 1 && as_.take(a0.len() as int) == a0 && (as_.last() matches
                    Action::UpdateField(f2) && crate::fir::field_eq(f2, field)) && vs == v0,
                    crate::fir::ExprKind::UpdateIndex(lhs, mid, rhs) => cs == c0.push(
                        Cont::Action,
                    ).push(Cont::Expr(lhs)).push(Cont::Expr(rhs)).push(Cont::Expr(mid)) && as_
                        == a0.push(
                        Action::UpdateIndex(store.spec_expr(old(self).package, mid).span),
                    ) && vs == v0,
                    crate::fir::ExprKind::Var(res) => cs == c0 && as_ == a0 && (match
                    spec_resolve_binding(*old(env), old(self).package, res, node.span) {
                        Result::Ok(v) => r is Ok && vs.len() == v0.len() + 1 && vs.drop_last()
                            == v0 && vs.last()@ == v,
                        Result::Err(f) => r == Result::<(), Failure>::Err(f) && vs == v0,
                    }),
                    crate::fir::ExprKind::While(c, b) => cs == c0.push(Cont::Action).push(
                        Cont::Expr(c),
                    ) && as_ == a0.push(Action::While(c, b)) && vs == v0,
                }
            }),
    {
        let expr_node = store.get_expr(self.package, expr);
        self.current_span = expr_node.span;
        let ghost c0 = self.cont_stack@;
        match &expr_node.kind {
            crate::fir::ExprKind::Array(arr) => {
                self.cont_arr(arr);
                proof {
                    lemma_count_push(c0, Cont::Action);
                    lemma_rev_exprs_all(expr_node.kind->Array_0@);
                    lemma_count_add_exprs(
                        c0.push(Cont::Action),
                        rev_expr_conts(expr_node.kind->Array_0@),
                    );
                }
                Ok(())
            },
            crate::fir::ExprKind::ArrayRepeat(item, size) => {
                self.cont_arr_repeat(store, *item, *size);
                proof {
                    lemma_count_push(c0, Cont::Action);
                    lemma_count_push(c0.push(Cont::Action), Cont::Expr(*size));
                    lemma_count_push(
                        c0.push(Cont::Action).push(Cont::Expr(*size)),
                        Cont::Expr(*item),
                    );
                }
                Ok(())
            },
            crate::fir::ExprKind::Assign(lhs, rhs) => {
                self.cont_assign(*lhs, *rhs);
                proof {
                    lemma_count_push(c0, Cont::Action);
                    lemma_count_push(c0.push(Cont::Action), Cont::Expr(*rhs));
                }
                Ok(())
            },
            crate::fir::ExprKind::AssignOp(op, lhs, rhs) => {
                self.cont_assign_op(env, store, *op, *lhs, *rhs);
                Ok(())
            },
            crate::fir::ExprKind::AssignField(record, field, replace) => {
                self.cont_assign_field(*record, crate::fir::clone_field(field), *replace);
                Ok(())
            },
            crate::fir::ExprKind::AssignIndex(lhs, mid, rhs) => {
                self.cont_assign_index(env, store, *lhs, *mid, *rhs);
                Ok(())
            },
            crate::fir::ExprKind::BinOp(op, lhs, rhs) => {
                self.cont_binop(store, *op, *rhs, *lhs);
                proof {
                    if *op is AndL || *op is OrL {
                        lemma_count_push(c0, Cont::Action);
                        lemma_count_push(c0.push(Cont::Action), Cont::Expr(*lhs));
                    } else {
                        lemma_count_push(c0, Cont::Action);
                        lemma_count_push(c0.push(Cont::Action), Cont::Expr(*rhs));
                        lemma_count_push(
                            c0.push(Cont::Action).push(Cont::Expr(*rhs)),
                            Cont::Expr(*lhs),
                        );
                    }
                }
                Ok(())
            },
            crate::fir::ExprKind::Block(block) => {
                self.push_block(env, store, *block);
                Ok(())
            },
            crate::fir::ExprKind::Call(callee, args) => {
                self.cont_call(store, *callee, *args);
                proof {
                    lemma_count_push(c0, Cont::Action);
                    lemma_count_push(c0.push(Cont::Action), Cont::Expr(*args));
                    lemma_count_push(
                        c0.push(Cont::Action).push(Cont::Expr(*args)),
                        Cont::Expr(*callee),
                    );
                }
                Ok(())
            },
            crate::fir::ExprKind::Closure(args, callable) => {
                let closure = match resolve_closure(
                    env,
                    self.package,
                    expr_node.span,
                    args,
                    *callable,
                ) {
                    Ok(v) => v,
                    Err(f) => {
                        return Err(f);
                    },
                };
                self.push_val(closure);
                Ok(())
            },
            crate::fir::ExprKind::Fail(fail_expr) => {
                self.cont_fail(expr_node.span, *fail_expr);
                proof {
                    lemma_count_push(c0, Cont::Action);
                    lemma_count_push(c0.push(Cont::Action), Cont::Expr(*fail_expr));
                }
                Ok(())
            },
            crate::fir::ExprKind::Field(e, field) => {
                self.cont_field(*e, crate::fir::clone_field(field));
                proof {
                    lemma_count_push(c0, Cont::Action);
                    lemma_count_push(c0.push(Cont::Action), Cont::Expr(*e));
                }
                Ok(())
            },
            crate::fir::ExprKind::Hole => Err(Failure::Fault(Fault::UnexpectedHole)),
            crate::fir::ExprKind::If(cond_expr, then_expr, else_expr) => {
                self.cont_if(*cond_expr, *then_expr, *else_expr);
                proof {
                    lemma_count_push(c0, Cont::Action);
                    lemma_count_push(c0.push(Cont::Action), Cont::Expr(*cond_expr));
                }
                Ok(())
            },
            crate::fir::ExprKind::Index(arr, index) => {
                self.cont_index(store, *arr, *index);
                proof {
                    lemma_count_push(c0, Cont::Action);
                    lemma_count_push(c0.push(Cont::Action), Cont::Expr(*index));
                    lemma_count_push(
                        c0.push(Cont::Action).push(Cont::Expr(*index)),
                        Cont::Expr(*arr),
                    );
                }
                Ok(())
            },
            crate::fir::ExprKind::Lit(lit) => {
                let v = lit_to_val(lit);
                self.push_val(v);
                Ok(())
            },
            crate::fir::ExprKind::Range(start, step, end) => {
                self.cont_range(*start, *step, *end);
                Ok(())
            },
            crate::fir::ExprKind::Return(e) => {
                self.cont_ret(*e);
                proof {
                    lemma_count_push(c0, Cont::Action);
                    lemma_count_push(c0.push(Cont::Action), Cont::Expr(*e));
                }
                Ok(())
            },
            crate::fir::ExprKind::String(components) => {
                self.cont_string(components);
                Ok(())
            },
            crate::fir::ExprKind::Tuple(tup) => {
                self.cont_tup(tup);
                proof {
                    lemma_count_push(c0, Cont::Action);
                    lemma_rev_exprs_all(expr_node.kind->Tuple_0@);
                    lemma_count_add_exprs(
                        c0.push(Cont::Action),
                        rev_expr_conts(expr_node.kind->Tuple_0@),
                    );
                }
                Ok(())
            },
            crate::fir::ExprKind::UnOp(op, e) => {
                self.cont_unop(*op, *e);
                proof {
                    lemma_count_push(c0, Cont::Action);
                    lemma_count_push(c0.push(Cont::Action), Cont::Expr(*e));
                }
                Ok(())
            },
            crate::fir::ExprKind::UpdateField(record, field, replace) => {
                self.cont_update_field(*record, crate::fir::clone_field(field), *replace);
                proof {
                    lemma_count_push(c0, Cont::Action);
                    lemma_count_push(c0.push(Cont::Action), Cont::Expr(*replace));
                    lemma_count_push(
                        c0.push(Cont::Action).push(Cont::Expr(*replace)),
                        Cont::Expr(*record),
                    );
                }
                Ok(())
            },
            crate::fir::ExprKind::UpdateIndex(lhs, mid, rhs) => {
                self.update_index(store, *lhs, *mid, *rhs);
                proof {
                    lemma_count_push(c0, Cont::Action);
                    lemma_count_push(c0.push(Cont::Action), Cont::Expr(*lhs));
                    lemma_count_push(
                        c0.push(Cont::Action).push(Cont::Expr(*lhs)),
                        Cont::Expr(*rhs),
                    );
                    lemma_count_push(
                        c0.push(Cont::Action).push(Cont::Expr(*lhs)).push(Cont::Expr(*rhs)),
                        Cont::Expr(*mid),
                    );
                }
                Ok(())
            },
            crate::fir::ExprKind::Var(res) => {
                let v = match resolve_binding(env, self.package, *res, expr_node.span) {
                    Ok(v) => v,
                    Err(f) => {
                        return Err(f);
                    },
                };
                self.push_val(v);
                Ok(())
            },
            crate::fir::ExprKind::While(cond_expr, block) => {
                self.cont_while(*cond_expr, *block);
                proof {
                    lemma_count_push(c0, Cont::Action);
                    lemma_count_push(c0.push(Cont::Action), Cont::Expr(*cond_expr));
                }
                Ok(())
            },
        }
    }

    /// Dispatches one statement node: sets the current span and schedules
    /// the statement's expression with its terminator, an item or local
    /// binding leaving a unit value.
    fn cont_stmt(&mut self, store: &crate::fir::PackageStore, stmt: StmtId)
        requires
            old(self).wf(),
            store.wf(),
            store.valid_stmt(old(self).package, stmt),
        ensures
            final(self).wf(),
            count_scope(final(self).cont_stack@) == count_scope(old(self).cont_stack@),
            final(self).call_stack@ == old(self).call_stack@,
            final(self).package == old(self).package,
            final(self).current_span == store.spec_stmt(old(self).package, stmt).span,
    {
        let stmt_node = store.get_stmt(self.package, stmt);
        self.current_span = stmt_node.span;
        let ghost c0 = self.cont_stack@;
        match &stmt_node.kind {
            crate::fir::StmtKind::Expr(expr) => {
                self.push_expr(*expr);
                proof {
                    lemma_count_push(c0, Cont::Expr(*expr));
                }
            },
            crate::fir::StmtKind::Item(_) => {
                self.push_val(Value::unit());
            },
            crate::fir::StmtKind::Local(mutability, pat, expr) => {
                self.push_action(Action::Bind(*pat, *mutability));
                proof {
                    lemma_count_push(c0, Cont::Action);
                }
                let ghost c1 = self.cont_stack@;
                self.push_expr(*expr);
                proof {
                    lemma_count_push(c1, Cont::Expr(*expr));
                }
                self.push_val(Value::unit());
            },
            crate::fir::StmtKind::Semi(expr) => {
                self.push_action(Action::Consume);
                proof {
                    lemma_count_push(c0, Cont::Action);
                }
                let ghost c1 = self.cont_stack@;
                self.push_expr(*expr);
                proof {
                    lemma_count_push(c1, Cont::Expr(*expr));
                }
                self.push_val(Value::unit());
            },
        }
    }
}


/// The frame list an error carries: the shifted call-stack snapshot, and —
/// for a failure outside any call — a single synthetic frame holding the
/// failing span, so the list is never empty.
pub open spec fn spec_error_frames(frames: Seq<Frame>, cur: Span, package: PackageId) -> Seq<
    Frame,
> {
    if frames.len() == 0 {
        seq![
            Frame {
                span: cur,
                id: StoreItemId { package, item: 0 },
                caller: package,
                functor: FunctorApp { adjoint: false, controlled: 0 },
            },
        ]
    } else {
        spec_shifted_frames(frames, cur)
    }
}

/// The call stack as diagnostics report it: each frame carries the span of
/// the call site below it, and the innermost frame carries the span being
/// evaluated.
pub open spec fn spec_shifted_frames(frames: Seq<Frame>, cur: Span) -> Seq<Frame> {
    Seq::new(
        frames.len(),
        |i: int|
            Frame {
                span: if i == frames.len() - 1 {
                    cur
                } else {
                    frames[i + 1].span
                },
                id: frames[i].id,
                caller: frames[i].caller,
                functor: frames[i].functor,
            },
    )
}

impl State {
    /// A snapshot of the call stack for error reporting, spans shifted so
    /// each frame shows where evaluation stands inside it.
    pub fn get_stack_frames(&self) -> (r: Vec<Frame>)
        ensures
            r@ == spec_shifted_frames(self.call_stack@, self.current_span),
    {
        let n = self.call_stack.len();
        let mut out: Vec<Frame> = Vec::new();
        let mut i: usize = 0;
        while i < n
            invariant
                i <= n,
                n == self.call_stack@.len(),
                out@.len() == i,
                forall|j: int|
                    0 <= j < i ==> #[trigger] out@[j] == spec_shifted_frames(
                        self.call_stack@,
                        self.current_span,
                    )[j],
            decreases n - i,
        {
            let base = self.call_stack[i];
            let span = if i + 1 < n {
                self.call_stack[i + 1].span
            } else {
                self.current_span
            };
            out.push(Frame { span, id: base.id, caller: base.caller, functor: base.functor });
            i = i + 1;
        }
        proof {
            assert(out@ =~= spec_shifted_frames(self.call_stack@, self.current_span));
        }
        out
    }

    /// The frame list to attach to an error: never empty, the failing span
    /// in the innermost frame.
    fn error_frames(&self) -> (r: Vec<Frame>)
        ensures
            r@ == spec_error_frames(self.call_stack@, self.current_span, self.package),
            r@.len() >= 1,
            r@.last().span == self.current_span,
    {
        let mut out = self.get_stack_frames();
        if out.len() == 0 {
            out.push(
                Frame {
                    span: self.current_span,
                    id: StoreItemId { package: self.package, item: 0 },
                    caller: self.package,
                    functor: FunctorApp { adjoint: false, controlled: 0 },
                },
            );
        }
        proof {
            if self.call_stack@.len() > 0 {
                assert(out@.last().span == self.current_span);
            }
        }
        out
    }

    /// Binds a value to a pattern: a name binding inserts a variable in the
    /// innermost scope, a discard drops the value, and a tuple pattern
    /// destructures positionally. The environment keeps its depth.
    fn bind_value(&self, env: &mut Env, store: &crate::fir::PackageStore, pat: PatId, val:
        Value, mutability: Mutability, fuel: usize) -> (r: Result<(), Fault>)
        requires
            store.wf(),
            store.valid_pat(self.package, pat),
        ensures
            final(env).depth() == old(env).depth(),
            store.spec_pat(self.package, pat).kind matches crate::fir::PatKind::Bind(ident)
                ==> ((old(env).depth() > 0 && fuel > 0) ==> r is Ok && final(env).0@.last().bview() == crate::env::assoc_set(
                old(env).0@.last().bview(),
                ident.id,
                crate::env::VarV {
                    name: ident.name@,
                    value: val@,
                    mutability,
                    span: ident.span,
                },
            ) && final(env).0@.drop_last() == old(env).0@.drop_last()),
            old(env).depth() > 0 ==> match spec_bind_pat(
                *store,
                self.package,
                pat,
                val@,
                mutability,
                old(env).0@.last().bview(),
                fuel as nat,
            ) {
                Option::Some(b) => r is Ok && final(env).0@.last().bview() == b
                    && final(env).0@.drop_last() == old(env).0@.drop_last(),
                Option::None => r is Err,
            },
        decreases fuel,
    {
        if fuel == 0 {
            return Err(Fault::RecursionLimit);
        }
        let pat_node = store.get_pat(self.package, pat);
        match &pat_node.kind {
            crate::fir::PatKind::Bind(ident) => {
                let var = crate::env::Variable {
                    name: ident.name.clone(),
                    value: val,
                    mutability,
                    span: ident.span,
                };
                if env.bind(ident.id, var) {
                    Ok(())
                } else {
                    Err(Fault::MissingScope)
                }
            },
            crate::fir::PatKind::Discard => Ok(()),
            crate::fir::PatKind::Tuple(pats) => {
                let ghost v0 = val@;
                let items = match val {
                    Value::Tuple(items) => items,
                    _ => {
                        return Err(Fault::TypeMismatch);
                    },
                };
                proof {
                    crate::val::lemma_vview_tuple(items);
                }
                let ghost vitems = crate::val::views_of(items@);
                proof {
                    assert(v0 == crate::val::Val::Tuple(vitems));
                }
                let ghost b0 = if old(env).depth() > 0 {
                    old(env).0@.last().bview()
                } else {
                    Seq::<(LocalVarId, crate::env::VarV)>::empty()
                };
                let ghost f1 = (fuel - 1) as nat;
                let n = if pats.len() < items.len() {
                    pats.len()
                } else {
                    items.len()
                };
                let mut i: usize = 0;
                while i < n
                    invariant
                        i <= n,
                        n <= pats@.len(),
                        n <= items@.len(),
                        fuel >= 1,
                        f1 == (fuel - 1) as nat,
                        store.wf(),
                        store.valid_pat(self.package, pat),
                        store.spec_pat(self.package, pat).kind is Tuple,
                        pats@ == store.spec_pat(self.package, pat).kind->Tuple_0@,
                        vitems == crate::val::views_of(items@),
                        v0 == crate::val::Val::Tuple(vitems),
                        v0 == val@,
                        n as int == (if pats@.len() < vitems.len() {
                            pats@.len() as int
                        } else {
                            vitems.len() as int
                        }),
                        env.depth() == old(env).depth(),
                        old(env).depth() > 0 ==> (b0 == old(env).0@.last().bview()
                            && env.0@.drop_last() == old(env).0@.drop_last()
                            && spec_bind_seq(
                            *store,
                            self.package,
                            pats@,
                            vitems,
                            mutability,
                            b0,
                            f1,
                            n as int,
                            0,
                        ) == spec_bind_seq(
                            *store,
                            self.package,
                            pats@,
                            vitems,
                            mutability,
                            env.0@.last().bview(),
                            f1,
                            n as int,
                            i as int,
                        )),
                    decreases n - i,
                {
                    proof {
                        let p = store.packages@[self.package as int];
                        assert(crate::fir::wf_package(p));
                        assert(crate::fir::wf_pat_kind(p, p.pats[pat as int].kind));
                        let pvec = p.pats[pat as int].kind->Tuple_0;
                        assert(pvec[i as int] < p.pats.len());
                        assert(pats@[i as int] == pvec@[i as int]);
                    }
                    let sub = crate::val::clone_value(&items[i]);
                    let ghost pre_b = if env.depth() > 0 {
                        env.0@.last().bview()
                    } else {
                        b0
                    };
                    match self.bind_value(env, store, pats[i], sub, mutability, fuel - 1) {
                        Ok(()) => {},
                        Err(f) => {
                            proof {
                                if old(env).depth() > 0 {
                                    assert(sub@ == vitems[i as int]);
                                    assert(spec_bind_pat(
                                        *store,
                                        self.package,
                                        pats@[i as int],
                                        vitems[i as int],
                                        mutability,
                                        pre_b,
                                        f1,
                                    ) is None);
                                    assert(spec_bind_seq(
                                        *store,
                                        self.package,
                                        pats@,
                                        vitems,
                                        mutability,
                                        pre_b,
                                        f1,
                                        n as int,
                                        i as int,
                                    ) is None);
                                    assert(spec_bind_seq(
                                        *store,
                                        self.package,
                                        pats@,
                                        vitems,
                                        mutability,
                                        b0,
                                        f1,
                                        n as int,
                                        0,
                                    ) is None);
                                    assert(v0 == crate::val::Val::Tuple(vitems));
                                    assert(spec_bind_pat(
                                        *store,
                                        self.package,
                                        pat,
                                        v0,
                                        mutability,
                                        b0,
                                        fuel as nat,
                                    ) is None);
                                }
                            }
                            return Err(f);
                        },
                    }
                    proof {
                        if old(env).depth() > 0 {
                            assert(sub@ == vitems[i as int]);
                        }
                    }
                    i = i + 1;
                }
                proof {
                    if old(env).depth() > 0 {
                        assert(spec_bind_seq(
                            *store,
                            self.package,
                            pats@,
                            vitems,
                            mutability,
                            env.0@.last().bview(),
                            f1,
                            n as int,
                            n as int,
                        ) == Option::Some(env.0@.last().bview()));
                        assert(v0 == crate::val::Val::Tuple(vitems));
                        assert(spec_bind_pat(
                            *store,
                            self.package,
                            pat,
                            v0,
                            mutability,
                            b0,
                            fuel as nat,
                        ) == Option::Some(env.0@.last().bview()));
                    }
                }
                Ok(())
            },
        }
    }

    /// Writes a value through an assignable expression: a hole discards it,
    /// a local variable is assigned, and a tuple destructures positionally.
    /// The environment keeps its depth.
    fn update_binding(&self, env: &mut Env, store: &crate::fir::PackageStore, lhs: ExprId, rhs:
        Value, fuel: usize) -> (r: Result<(), Failure>)
        requires
            store.wf(),
            store.valid_expr(self.package, lhs),
        ensures
            final(env).depth() == old(env).depth(),
            store.spec_expr(self.package, lhs).kind matches crate::fir::ExprKind::Var(
                crate::fir::Res::Local(id),
            ) ==> (fuel > 0 ==> match r {
                Ok(()) => crate::env::env_find(final(env).0@, id) matches Option::Some(v)
                    && v.value == rhs@ && v.mutability is Mutable && forall|id2:
                    crate::fir::LocalVarId|
                    id2 != id ==> #[trigger] crate::env::env_find(final(env).0@, id2)
                        == crate::env::env_find(old(env).0@, id2),
                Err(f) => (f matches Failure::Program(e) ==> e is UnboundName
                    && crate::env::env_find(old(env).0@, id) is None) && (f matches
                Failure::Fault(ft) ==> ft == Fault::AssignToImmutable && (
                crate::env::env_find(old(env).0@, id) matches Option::Some(v)
                    && v.mutability is Immutable)),
            }),
        decreases fuel,
    {
        if fuel == 0 {
            return Err(Failure::Fault(Fault::RecursionLimit));
        }
        let lhs_node = store.get_expr(self.package, lhs);
        match &lhs_node.kind {
            crate::fir::ExprKind::Hole => Ok(()),
            crate::fir::ExprKind::Var(crate::fir::Res::Local(id)) => {
                match env.assign(*id, rhs) {
                    crate::env::BindOutcome::Updated => Ok(()),
                    crate::env::BindOutcome::NotFound => Err(
                        Failure::Program(
                            Error::UnboundName(self.spec_global_span_exec(lhs_node.span)),
                        ),
                    ),
                    crate::env::BindOutcome::Immutable => Err(
                        Failure::Fault(Fault::AssignToImmutable),
                    ),
                }
            },
            crate::fir::ExprKind::Var(_) => Err(Failure::Fault(Fault::UnassignablePattern)),
            crate::fir::ExprKind::Tuple(var_tup) => {
                let items = match rhs {
                    Value::Tuple(items) => items,
                    _ => {
                        return Err(Failure::Fault(Fault::UnassignablePattern));
                    },
                };
                let n = if var_tup.len() < items.len() {
                    var_tup.len()
                } else {
                    items.len()
                };
                let mut i: usize = 0;
                while i < n
                    invariant
                        i <= n,
                        n <= var_tup@.len(),
                        n <= items@.len(),
                        fuel >= 1,
                        store.wf(),
                        store.valid_expr(self.package, lhs),
                        store.spec_expr(self.package, lhs).kind is Tuple,
                        var_tup@ == store.spec_expr(self.package, lhs).kind->Tuple_0@,
                        env.depth() == old(env).depth(),
                    decreases n - i,
                {
                    proof {
                        let p = store.packages@[self.package as int];
                        assert(crate::fir::wf_package(p));
                        assert(crate::fir::wf_expr_kind(p, p.exprs[lhs as int].kind));
                        let evec = p.exprs[lhs as int].kind->Tuple_0;
                        assert(evec[i as int] < p.exprs.len());
                        assert(var_tup@[i as int] == evec@[i as int]);
                    }
                    let sub = crate::val::clone_value(&items[i]);
                    match self.update_binding(env, store, var_tup[i], sub, fuel - 1) {
                        Ok(()) => {},
                        Err(f) => {
                            return Err(f);
                        },
                    }
                    i = i + 1;
                }
                Ok(())
            },
            _ => Err(Failure::Fault(Fault::UnassignablePattern)),
        }
    }

    /// The span, qualified with the current package (exec form usable
    /// where `self` is borrowed).
    fn spec_global_span_exec(&self, span: Span) -> (r: PackageSpan)
        ensures
            r == self.spec_global_span(span),
    {
        PackageSpan { package: self.package, span }
    }

    /// Unwinds to the nearest frame continuation, leaving scopes and
    /// discarding pending actions on the way, then leaves that frame. With
    /// no frame pending, the unwind empties the stack and the return value
    /// becomes the program result.
    fn eval_ret(&mut self, env: &mut Env) -> (r: Result<(), Fault>)
        requires
            old(self).wf(),
            old(self).balance(*old(env)) >= 1,
        ensures
            r is Ok ==> final(self).wf() && final(self).balance(*final(env)) == old(self).balance(*old(env)),
            r is Ok && count_frame(old(self).cont_stack@) == 0 ==> final(self).cont_stack@.len()
                == 0 && final(self).call_stack@ == old(self).call_stack@ && final(self).vals@
                == old(self).vals@,
            r is Ok && count_frame(old(self).cont_stack@) > 0 ==> ({
                let j = last_frame_idx(old(self).cont_stack@);
                let watermark = old(self).cont_stack@[j]->Frame_0;
                &&& old(self).call_stack@.len() > 0
                &&& old(self).vals@.len() > watermark
                &&& final(self).cont_stack@ == old(self).cont_stack@.take(j)
                &&& final(self).call_stack@ == old(self).call_stack@.drop_last()
                &&& final(self).package == old(self).call_stack@.last().caller
                &&& final(self).vals@ == old(self).vals@.take(watermark as int).push(
                    old(self).vals@.last(),
                )
            }),
    {
        proof {
            if count_frame(old(self).cont_stack@) > 0 {
                lemma_last_frame_idx(old(self).cont_stack@);
                assert(self.cont_stack@ =~= old(self).cont_stack@.take(
                    self.cont_stack@.len() as int,
                ));
            }
        }
        loop
            invariant
                self.wf(),
                self.balance(*env) == old(self).balance(*old(env)),
                self.balance(*env) >= 1,
                count_frame(self.cont_stack@) == count_frame(old(self).cont_stack@),
                self.call_stack@ == old(self).call_stack@,
                self.vals@ == old(self).vals@,
                self.cont_stack@.len() <= old(self).cont_stack@.len(),
                count_frame(old(self).cont_stack@) > 0 ==> (self.cont_stack@
                    == old(self).cont_stack@.take(self.cont_stack@.len() as int)
                    && self.cont_stack@.len() > last_frame_idx(old(self).cont_stack@)),
            decreases self.cont_stack@.len(),
        {
            let ghost cs = self.cont_stack@;
            proof {
                if count_frame(old(self).cont_stack@) > 0 {
                    lemma_last_frame_idx(old(self).cont_stack@);
                }
            }
            match self.pop_cont() {
                Option::None => {
                    return Ok(());
                },
                Option::Some(cont) => {
                    proof {
                        if count_frame(old(self).cont_stack@) > 0 {
                            let oc = old(self).cont_stack@;
                            let l = cs.len() as int;
                            assert(cs == oc.take(l));
                            assert(cont == cs[l - 1]);
                            assert(cs[l - 1] == oc[l - 1]);
                            assert forall|i: int| 0 <= i < l - 1 implies self.cont_stack@[i]
                                == oc.take(l - 1)[i] by {
                                assert(cs[i] == oc[i]);
                            }
                            assert(self.cont_stack@ =~= oc.take(l - 1));
                        }
                    }
                    match cont {
                        Cont::Frame(len) => {
                            proof {
                                assert(count_frame(cs) > 0);
                                assert(cs.len() - 1 == last_frame_idx(old(self).cont_stack@));
                                assert(self.cont_stack@ =~= old(self).cont_stack@.take(
                                    last_frame_idx(old(self).cont_stack@),
                                ));
                            }
                            match self.leave_frame(len) {
                                Ok(()) => {
                                    return Ok(());
                                },
                                Err(f) => {
                                    return Err(f);
                                },
                            }
                        },
                        Cont::Scope => {
                            if !env.leave_scope() {
                                return Err(Fault::MissingScope);
                            }
                        },
                        Cont::Action => {
                            match self.action_stack.pop() {
                                Option::Some(_) => {},
                                Option::None => {
                                    return Err(Fault::StackUnderflow);
                                },
                            }
                        },
                        _ => {},
                    }
                },
            }
        }
    }
}


impl State {
    /// Collects the popped elements into an array value.
    fn eval_arr(&mut self, len: usize) -> (r: Result<(), Fault>)
        ensures
            final(self).cont_stack@ == old(self).cont_stack@,
            final(self).action_stack@ == old(self).action_stack@,
            final(self).call_stack@ == old(self).call_stack@,
            final(self).package == old(self).package,
            final(self).current_span == old(self).current_span,
            match r {
                Ok(()) => old(self).vals@.len() >= len && final(self).vals@ == old(self).vals@.take(old(self).vals@.len() - len).push(final(self).vals@.last())
                    && final(self).vals@.last()@ == crate::val::Val::Array(
                    crate::val::views_of(old(self).vals@.skip(old(self).vals@.len() - len)),
                ),
                Err(f) => old(self).vals@.len() < len && f == Fault::StackUnderflow && final(self).vals@ == old(self).vals@,
            },
    {
        let items = match self.pop_vals(len) {
            Ok(items) => items,
            Err(f) => {
                return Err(f);
            },
        };
        let ghost itemsv = items@;
        let result = Value::Array(items);
        proof {
            crate::val::lemma_vview_array(result->Array_0);
        }
        self.push_val(result);
        proof {
            assert(self.vals@ =~= old(self).vals@.take(
                old(self).vals@.len() - len,
            ).push(self.vals@.last()));
        }
        Ok(())
    }

    /// Collects the popped elements into a tuple value.
    fn eval_tup(&mut self, len: usize) -> (r: Result<(), Fault>)
        ensures
            final(self).cont_stack@ == old(self).cont_stack@,
            final(self).action_stack@ == old(self).action_stack@,
            final(self).call_stack@ == old(self).call_stack@,
            final(self).package == old(self).package,
            final(self).current_span == old(self).current_span,
            match r {
                Ok(()) => old(self).vals@.len() >= len && final(self).vals@ == old(self).vals@.take(old(self).vals@.len() - len).push(final(self).vals@.last())
                    && final(self).vals@.last()@ == crate::val::Val::Tuple(
                    crate::val::views_of(old(self).vals@.skip(old(self).vals@.len() - len)),
                ),
                Err(f) => old(self).vals@.len() < len && f == Fault::StackUnderflow && final(self).vals@ == old(self).vals@,
            },
    {
        let items = match self.pop_vals(len) {
            Ok(items) => items,
            Err(f) => {
                return Err(f);
            },
        };
        let result = Value::Tuple(items);
        proof {
            crate::val::lemma_vview_tuple(result->Tuple_0);
        }
        self.push_val(result);
        proof {
            assert(self.vals@ =~= old(self).vals@.take(
                old(self).vals@.len() - len,
            ).push(self.vals@.last()));
        }
        Ok(())
    }

    /// Builds an array of copies of the popped item, as many as the popped
    /// size says: a size that is negative or beyond the machine is
    /// `InvalidArrayLength`.
    fn eval_arr_repeat(&mut self, span: Span) -> (r: Result<(), Failure>)
        ensures
            final(self).cont_stack@ == old(self).cont_stack@,
            final(self).action_stack@ == old(self).action_stack@,
            final(self).call_stack@ == old(self).call_stack@,
            final(self).package == old(self).package,
            final(self).current_span == old(self).current_span,
            old(self).vals@.len() == 0 ==> r == Result::<(), Failure>::Err(
                Failure::Fault(Fault::StackUnderflow),
            ),
            old(self).vals@.len() >= 1 && !(old(self).vals@.last()@ is Int) ==> r == Result::<
                (),
                Failure,
            >::Err(Failure::Fault(Fault::TypeMismatch)),
            old(self).vals@.len() == 1 && old(self).vals@.last()@ is Int ==> r == Result::<
                (),
                Failure,
            >::Err(Failure::Fault(Fault::StackUnderflow)),
            old(self).vals@.len() >= 2 && old(self).vals@.last()@ is Int ==> ({
                let n = old(self).vals@.len();
                let size = old(self).vals@.last()@->Int_0;
                let item = old(self).vals@[n - 2]@;
                if size < 0 || size > usize::MAX {
                    r == Result::<(), Failure>::Err(
                        Failure::Program(
                            Error::InvalidArrayLength(size, old(self).spec_global_span(span)),
                        ),
                    )
                } else {
                    r is Ok && final(self).vals@.len() == n - 1 && final(self).vals@.take(n - 2)
                        == old(self).vals@.take(n - 2) && final(self).vals@.last()@
                        == crate::val::Val::Array(Seq::new(size as nat, |i: int| item))
                }
            }),
    {
        let size_val = match self.pop_val() {
            Ok(v) => v,
            Err(f) => {
                return Err(Failure::Fault(f));
            },
        };
        let size: i64 = match size_val {
            Value::Int(i) => i,
            _ => {
                return Err(Failure::Fault(Fault::TypeMismatch));
            },
        };
        let item_val = match self.pop_val() {
            Ok(v) => v,
            Err(f) => {
                return Err(Failure::Fault(f));
            },
        };
        proof {
            assert(self.vals@ =~= old(self).vals@.take(old(self).vals@.len() - 2));
        }
        if size < 0 || size as u64 > usize::MAX as u64 {
            let gspan = self.to_global_span(span);
            return Err(Failure::Program(Error::InvalidArrayLength(size, gspan)));
        }
        let n = size as usize;
        let ghost item_view = item_val@;
        proof {
            assert(item_view == old(self).vals@[old(self).vals@.len() - 2]@);
        }
        let mut items: Vec<Value> = Vec::new();
        let mut i: usize = 0;
        while i < n
            invariant
                i <= n,
                items@.len() == i,
                item_view == item_val@,
                forall|j: int| 0 <= j < i ==> #[trigger] items@[j]@ == item_view,
                old(self).vals@.len() >= 2,
                self.cont_stack@ == old(self).cont_stack@,
                self.action_stack@ == old(self).action_stack@,
                self.call_stack@ == old(self).call_stack@,
                self.package == old(self).package,
                self.current_span == old(self).current_span,
                self.vals@ == old(self).vals@.take(old(self).vals@.len() - 2),
            decreases n - i,
        {
            items.push(crate::val::clone_value(&item_val));
            i = i + 1;
        }
        let result = Value::Array(items);
        proof {
            crate::val::lemma_vview_array(result->Array_0);
            assert(crate::val::views_of(result->Array_0@) =~= Seq::new(
                n as nat,
                |i: int| item_view,
            ));
        }
        self.push_val(result);
        proof {
            assert(self.vals@.take(old(self).vals@.len() - 2) =~= old(self).vals@.take(
                old(self).vals@.len() - 2,
            ));
        }
        Ok(())
    }

    /// Pops the result and writes it through the assignment target.
    fn eval_assign(&mut self, env: &mut Env, store: &crate::fir::PackageStore, lhs: ExprId) -> (r:
        Result<(), Failure>)
        requires
            store.wf(),
            store.valid_expr(old(self).package, lhs),
        ensures
            final(self).cont_stack@ == old(self).cont_stack@,
            final(self).action_stack@ == old(self).action_stack@,
            final(self).call_stack@ == old(self).call_stack@,
            final(self).package == old(self).package,
            final(self).current_span == old(self).current_span,
            final(env).depth() == old(env).depth(),
            old(self).vals@.len() == 0 ==> r == Result::<(), Failure>::Err(
                Failure::Fault(Fault::StackUnderflow),
            ),
            r is Ok ==> old(self).vals@.len() >= 1 && final(self).vals@ == old(self).vals@.drop_last(),
    {
        let rhs = match self.pop_val() {
            Ok(v) => v,
            Err(f) => {
                return Err(Failure::Fault(f));
            },
        };
        let fuel = store.get_package_exprs_len(self.package);
        self.update_binding(env, store, lhs, rhs, fuel)
    }

    /// Pops the bound value and binds it to the pattern.
    fn eval_bind(&mut self, env: &mut Env, store: &crate::fir::PackageStore, pat: PatId,
        mutability: Mutability) -> (r: Result<(), Fault>)
        requires
            store.wf(),
            store.valid_pat(old(self).package, pat),
        ensures
            final(self).cont_stack@ == old(self).cont_stack@,
            final(self).action_stack@ == old(self).action_stack@,
            final(self).call_stack@ == old(self).call_stack@,
            final(self).package == old(self).package,
            final(self).current_span == old(self).current_span,
            final(env).depth() == old(env).depth(),
            old(self).vals@.len() == 0 ==> r == Result::<(), Fault>::Err(Fault::StackUnderflow),
            r is Ok ==> old(self).vals@.len() >= 1 && final(self).vals@ == old(self).vals@.drop_last(),
            old(self).vals@.len() >= 1 && old(env).depth() > 0 ==> match spec_bind_pat(
                *store,
                old(self).package,
                pat,
                old(self).vals@.last()@,
                mutability,
                old(env).0@.last().bview(),
                store.packages@[old(self).package as int].pats.len() as nat,
            ) {
                Option::Some(b) => r is Ok && final(env).0@.last().bview() == b
                    && final(env).0@.drop_last() == old(env).0@.drop_last(),
                Option::None => r is Err,
            },
    {
        let val = match self.pop_val() {
            Ok(v) => v,
            Err(f) => {
                return Err(f);
            },
        };
        let fuel = store.get_package_pats_len(self.package);
        self.bind_value(env, store, pat, val, mutability, fuel)
    }

    /// Fires a binary operation. Logical operations read the popped left
    /// value: the short-circuiting outcome is pushed, or the held right
    /// operand is scheduled. All others combine the popped right and left
    /// values exactly as [`crate::binop::spec_binop`] says (a double power is
    /// computed by the host backend), a mismatch is a fault, and missing
    /// operands underflow.
    fn eval_binop<B: crate::host::Backend<R>, R: crate::host::Receiver>(
        &mut self,
        op: BinOp,
        span: Span,
        rhs: Option<ExprId>,
        sim: &mut B,
    ) -> (r: Result<
        (),
        Failure,
    >)
        requires
            old(self).wf(),
        ensures
            final(self).wf(),
            count_scope(final(self).cont_stack@) == count_scope(old(self).cont_stack@),
            count_frame(final(self).cont_stack@) == count_frame(old(self).cont_stack@),
            final(self).call_stack@ == old(self).call_stack@,
            final(self).package == old(self).package,
            final(self).current_span == old(self).current_span,
            !(op is AndL) && !(op is OrL) ==> ({
                &&& old(self).vals@.len() < 2 ==> r == Result::<(), Failure>::Err(
                    Failure::Fault(Fault::StackUnderflow),
                )
                &&& old(self).vals@.len() >= 2 ==> ({
                    let o = crate::binop::spec_binop(
                        op,
                        old(self).vals@[old(self).vals@.len() - 2]@,
                        old(self).vals@[old(self).vals@.len() - 1]@,
                        old(self).spec_global_span(span),
                    );
                    &&& (r is Ok <==> (o is Value || o is Hosted))
                    &&& r is Ok ==> final(self).vals@.len() == old(self).vals@.len() - 1
                        && final(self).vals@.drop_last() == old(self).vals@.take(
                        old(self).vals@.len() - 2,
                    ) && final(self).cont_stack@ == old(self).cont_stack@
                    &&& (r is Ok && o is Value ==> o == crate::binop::OpOut::Value(
                        final(self).vals@.last()@,
                    ))
                    &&& (r is Ok && o is Hosted ==> final(self).vals@.last()@ is Double)
                    &&& (o matches crate::binop::OpOut::Fail(e) ==> r
                        == Result::<(), Failure>::Err(Failure::Program(e)))
                    &&& (o is Mismatch ==> r == Result::<(), Failure>::Err(
                        Failure::Fault(Fault::TypeMismatch),
                    ))
                })
            }),
            (op is AndL || op is OrL) && old(self).vals@.len() >= 1 && old(self).vals@.last()@
                is Bool ==> ({
                let b = old(self).vals@.last()@->Bool_0;
                let scheduled = (op is AndL && b) || (op is OrL && !b);
                &&& !scheduled ==> r is Ok && final(self).cont_stack@ == old(self).cont_stack@
                    && final(self).vals@ == old(self).vals@.drop_last().push(
                    final(self).vals@.last(),
                ) && final(self).vals@.last()@ == crate::val::Val::Bool(op is OrL)
                &&& scheduled && rhs is Some ==> r is Ok && final(self).vals@ == old(self).vals@.drop_last() && final(self).cont_stack@ == old(self).cont_stack@.push(
                    Cont::Expr(rhs->Some_0),
                )
                &&& scheduled && rhs is None ==> r == Result::<(), Failure>::Err(
                    Failure::Fault(Fault::TypeMismatch),
                )
            }),
            (op is AndL || op is OrL) && old(self).vals@.len() >= 1 && !(
            old(self).vals@.last()@ is Bool) ==> r == Result::<(), Failure>::Err(
                Failure::Fault(Fault::TypeMismatch),
            ),
            (op is AndL || op is OrL) && old(self).vals@.len() == 0 ==> r == Result::<
                (),
                Failure,
            >::Err(Failure::Fault(Fault::StackUnderflow)),
    {
        match op {
            BinOp::AndL => {
                let cond = match self.pop_val() {
                    Ok(v) => v,
                    Err(f) => {
                        return Err(Failure::Fault(f));
                    },
                };
                let b = match cond {
                    Value::Bool(b) => b,
                    _ => {
                        return Err(Failure::Fault(Fault::TypeMismatch));
                    },
                };
                if b {
                    match rhs {
                        Option::Some(e) => {
                            let ghost c = self.cont_stack@;
                            self.push_expr(e);
                            proof {
                                lemma_count_push(c, Cont::Expr(e));
                            }
                        },
                        Option::None => {
                            return Err(Failure::Fault(Fault::TypeMismatch));
                        },
                    }
                } else {
                    self.push_val(Value::Bool(false));
                }
                Ok(())
            },
            BinOp::OrL => {
                let cond = match self.pop_val() {
                    Ok(v) => v,
                    Err(f) => {
                        return Err(Failure::Fault(f));
                    },
                };
                let b = match cond {
                    Value::Bool(b) => b,
                    _ => {
                        return Err(Failure::Fault(Fault::TypeMismatch));
                    },
                };
                if b {
                    self.push_val(Value::Bool(true));
                } else {
                    match rhs {
                        Option::Some(e) => {
                            let ghost c = self.cont_stack@;
                            self.push_expr(e);
                            proof {
                                lemma_count_push(c, Cont::Expr(e));
                            }
                        },
                        Option::None => {
                            return Err(Failure::Fault(Fault::TypeMismatch));
                        },
                    }
                }
                Ok(())
            },
            _ => {
                let rhs_val = match self.pop_val() {
                    Ok(v) => v,
                    Err(f) => {
                        return Err(Failure::Fault(f));
                    },
                };
                let lhs_val = match self.pop_val() {
                    Ok(v) => v,
                    Err(f) => {
                        return Err(Failure::Fault(f));
                    },
                };
                let gspan = self.to_global_span(span);
                let result = match crate::binop::eval_binop_value(op, lhs_val, rhs_val, gspan, sim) {
                    Ok(v) => v,
                    Err(f) => {
                        return Err(f);
                    },
                };
                self.push_val(result);
                proof {
                    assert(self.vals@.drop_last() =~= old(self).vals@.take(
                        old(self).vals@.len() - 2,
                    ));
                }
                Ok(())
            },
        }
    }

    /// Raises the explicit failure carrying the popped message.
    fn eval_fail(&mut self, span: Span) -> (r: Result<(), Failure>)
        ensures
            r is Err,
            final(self).call_stack@ == old(self).call_stack@,
            final(self).package == old(self).package,
            final(self).current_span == old(self).current_span,
            old(self).vals@.len() == 0 ==> r == Result::<(), Failure>::Err(
                Failure::Fault(Fault::StackUnderflow),
            ),
            old(self).vals@.len() >= 1 && !(old(self).vals@.last()@ is String) ==> r
                == Result::<(), Failure>::Err(Failure::Fault(Fault::TypeMismatch)),
            old(self).vals@.len() >= 1 && old(self).vals@.last()@ is String ==> (r matches Err(
                f,
            ) && f matches Failure::Program(e) && e == Error::UserFail(
                old(self).vals@.last()->String_0,
                old(self).spec_global_span(span),
            )),
    {
        let msg = match self.pop_val() {
            Ok(v) => v,
            Err(f) => {
                return Err(Failure::Fault(f));
            },
        };
        match msg {
            Value::String(s) => {
                let gspan = self.to_global_span(span);
                Err(Failure::Program(Error::UserFail(s, gspan)))
            },
            _ => Err(Failure::Fault(Fault::TypeMismatch)),
        }
    }

    /// Branches on the popped condition: the taken branch is scheduled, a
    /// missing else yields unit.
    fn eval_if(&mut self, then_expr: ExprId, else_expr: Option<ExprId>) -> (r: Result<(), Fault>)
        requires
            old(self).wf(),
        ensures
            final(self).wf(),
            count_scope(final(self).cont_stack@) == count_scope(old(self).cont_stack@),
            count_frame(final(self).cont_stack@) == count_frame(old(self).cont_stack@),
            final(self).call_stack@ == old(self).call_stack@,
            final(self).package == old(self).package,
            final(self).current_span == old(self).current_span,
            old(self).vals@.len() == 0 ==> r == Result::<(), Fault>::Err(Fault::StackUnderflow),
            old(self).vals@.len() >= 1 && !(old(self).vals@.last()@ is Bool) ==> r == Result::<
                (),
                Fault,
            >::Err(Fault::TypeMismatch),
            old(self).vals@.len() >= 1 && old(self).vals@.last()@ is Bool ==> r is Ok && ({
                let b = old(self).vals@.last()@->Bool_0;
                if b {
                    final(self).vals@ == old(self).vals@.drop_last() && final(self).cont_stack@
                        == old(self).cont_stack@.push(Cont::Expr(then_expr))
                } else {
                    match else_expr {
                        Option::Some(e) => final(self).vals@ == old(self).vals@.drop_last()
                            && final(self).cont_stack@ == old(self).cont_stack@.push(
                            Cont::Expr(e),
                        ),
                        Option::None => final(self).vals@ == old(self).vals@.drop_last().push(
                            final(self).vals@.last(),
                        ) && final(self).vals@.last()@ == crate::val::Val::Unit && final(self).cont_stack@ == old(self).cont_stack@,
                    }
                }
            }),
    {
        let cond = match self.pop_val() {
            Ok(v) => v,
            Err(f) => {
                return Err(f);
            },
        };
        let b = match cond {
            Value::Bool(b) => b,
            _ => {
                return Err(Fault::TypeMismatch);
            },
        };
        let ghost c = self.cont_stack@;
        if b {
            self.push_expr(then_expr);
            proof {
                lemma_count_push(c, Cont::Expr(then_expr));
            }
        } else {
            match else_expr {
                Option::Some(e) => {
                    self.push_expr(e);
                    proof {
                        lemma_count_push(c, Cont::Expr(e));
                    }
                },
                Option::None => {
                    self.push_val(Value::unit());
                    proof {
                        assert(self.vals@ =~= old(self).vals@.drop_last().push(
                            self.vals@.last(),
                        ));
                    }
                },
            }
        }
        Ok(())
    }

    /// Indexes the popped array by the popped index: an integer picks one
    /// element, a range slices.
    fn eval_index(&mut self, span: Span) -> (r: Result<(), Failure>)
        ensures
            final(self).cont_stack@ == old(self).cont_stack@,
            final(self).action_stack@ == old(self).action_stack@,
            final(self).call_stack@ == old(self).call_stack@,
            final(self).package == old(self).package,
            final(self).current_span == old(self).current_span,
            old(self).vals@.len() < 2 ==> r == Result::<(), Failure>::Err(
                Failure::Fault(Fault::StackUnderflow),
            ),
            r is Ok ==> old(self).vals@.len() >= 2 && final(self).vals@.len() == old(self).vals@.len() - 1 && final(self).vals@.drop_last() == old(self).vals@.take(
                old(self).vals@.len() - 2,
            ),
    {
        let index_val = match self.pop_val() {
            Ok(v) => v,
            Err(f) => {
                return Err(Failure::Fault(f));
            },
        };
        let arr = match self.pop_val() {
            Ok(v) => v,
            Err(f) => {
                return Err(Failure::Fault(f));
            },
        };
        let items = match arr {
            Value::Array(items) => items,
            _ => {
                return Err(Failure::Fault(Fault::TypeMismatch));
            },
        };
        let gspan = self.to_global_span(span);
        let picked = match index_val {
            Value::Int(i) => match crate::arr::index_array(&items, i, gspan) {
                Ok(v) => v,
                Err(e) => {
                    return Err(Failure::Program(e));
                },
            },
            Value::Range(start, step, end) => {
                match crate::arr::slice_array(&items, start, step, end, gspan) {
                    Ok(v) => v,
                    Err(e) => {
                        return Err(Failure::Program(e));
                    },
                }
            },
            _ => {
                return Err(Failure::Fault(Fault::TypeMismatch));
            },
        };
        self.push_val(picked);
        proof {
            assert(self.vals@.drop_last() =~= old(self).vals@.take(
                old(self).vals@.len() - 2,
            ));
        }
        Ok(())
    }

    /// Collects the popped endpoints — end, then step, then start, each
    /// when present — into a range value; a missing step defaults to one.
    fn eval_range(&mut self, has_start: bool, has_step: bool, has_end: bool) -> (r: Result<
        (),
        Fault,
    >)
        ensures
            final(self).cont_stack@ == old(self).cont_stack@,
            final(self).action_stack@ == old(self).action_stack@,
            final(self).call_stack@ == old(self).call_stack@,
            final(self).package == old(self).package,
            final(self).current_span == old(self).current_span,
            ({
                let v0 = old(self).vals@;
                let needed = (if has_start {
                    1int
                } else {
                    0int
                }) + (if has_step {
                    1int
                } else {
                    0int
                }) + (if has_end {
                    1int
                } else {
                    0int
                });
                let end_ok = !has_end || (v0.len() >= 1 && v0[v0.len() - 1]@ is Int);
                let step_at = v0.len() - 1 - (if has_end {
                    1int
                } else {
                    0int
                });
                let step_ok = !has_step || (step_at >= 0 && v0[step_at]@ is Int);
                let start_at = step_at - (if has_step {
                    1int
                } else {
                    0int
                });
                let start_ok = !has_start || (start_at >= 0 && v0[start_at]@ is Int);
                r is Ok ==> v0.len() >= needed && end_ok && step_ok && start_ok && final(self).vals@ == v0.take(v0.len() - needed).push(final(self).vals@.last())
                    && final(self).vals@.last()@ == crate::val::Val::Range(
                    if has_start {
                        Option::Some(v0[start_at]@->Int_0)
                    } else {
                        Option::None
                    },
                    if has_step {
                        v0[step_at]@->Int_0
                    } else {
                        1i64
                    },
                    if has_end {
                        Option::Some(v0[v0.len() - 1]@->Int_0)
                    } else {
                        Option::None
                    },
                )
            }),
    {
        let end = if has_end {
            match self.pop_val() {
                Ok(Value::Int(i)) => Some(i),
                Ok(_) => {
                    return Err(Fault::TypeMismatch);
                },
                Err(f) => {
                    return Err(f);
                },
            }
        } else {
            None
        };
        let step = if has_step {
            match self.pop_val() {
                Ok(Value::Int(i)) => i,
                Ok(_) => {
                    return Err(Fault::TypeMismatch);
                },
                Err(f) => {
                    return Err(f);
                },
            }
        } else {
            1
        };
        let start = if has_start {
            match self.pop_val() {
                Ok(Value::Int(i)) => Some(i),
                Ok(_) => {
                    return Err(Fault::TypeMismatch);
                },
                Err(f) => {
                    return Err(f);
                },
            }
        } else {
            None
        };
        self.push_val(Value::Range(start, step, end));
        Ok(())
    }
}


/// The concatenation of the renderings of a run of values.
pub open spec fn strs_concat(items: Seq<crate::val::Val>) -> Seq<char>
    decreases items.len(),
{
    if items.len() == 0 {
        Seq::<char>::empty()
    } else {
        crate::val::val_str(items[0]).add(strs_concat(items.drop_first()))
    }
}

/// One step of concatenation from the left.
proof fn lemma_strs_concat_take(items: Seq<crate::val::Val>, i: int)
    requires
        0 <= i < items.len(),
    ensures
        strs_concat(items.take(i + 1)) == strs_concat(items.take(i)).add(
            crate::val::val_str(items[i]),
        ),
    decreases i,
{
    if i == 0 {
        assert(items.take(1)[0] == items[0]);
        assert(items.take(1).drop_first() =~= Seq::<crate::val::Val>::empty());
        assert(items.take(0) =~= Seq::<crate::val::Val>::empty());
        assert(strs_concat(items.take(0)).add(crate::val::val_str(items[0]))
            =~= crate::val::val_str(items[0]));
        assert(strs_concat(items.take(1)) =~= crate::val::val_str(items[0]));
    } else {
        lemma_strs_concat_take(items.drop_first(), i - 1);
        assert(items.take(i + 1)[0] == items[0]);
        assert(items.take(i)[0] == items[0]);
        assert(items.take(i + 1).drop_first() =~= items.drop_first().take(i));
        assert(items.take(i).drop_first() =~= items.drop_first().take(i - 1));
        assert(items.drop_first()[i - 1] == items[i]);
        assert(strs_concat(items.take(i)).add(crate::val::val_str(items[i])) =~= crate::val::val_str(
            items[0],
        ).add(
            strs_concat(items.drop_first().take(i - 1)).add(crate::val::val_str(items[i])),
        ));
    }
}

impl State {
    /// Concatenates the renderings of the popped components into a string.
    fn eval_string_concat(&mut self, len: usize) -> (r: Result<(), Fault>)
        ensures
            final(self).cont_stack@ == old(self).cont_stack@,
            final(self).action_stack@ == old(self).action_stack@,
            final(self).call_stack@ == old(self).call_stack@,
            final(self).package == old(self).package,
            final(self).current_span == old(self).current_span,
            match r {
                Ok(()) => old(self).vals@.len() >= len && final(self).vals@ == old(self).vals@.take(old(self).vals@.len() - len).push(final(self).vals@.last())
                    && final(self).vals@.last()@ == crate::val::Val::String(
                    strs_concat(
                        crate::val::views_of(old(self).vals@.skip(old(self).vals@.len() - len)),
                    ),
                ),
                Err(f) => old(self).vals@.len() < len && f == Fault::StackUnderflow && final(self).vals@ == old(self).vals@,
            },
    {
        let components = match self.pop_vals(len) {
            Ok(items) => items,
            Err(f) => {
                return Err(f);
            },
        };
        let ghost cviews = crate::val::views_of(components@);
        let mut s = String::new();
        let mut i: usize = 0;
        proof {
            assert(cviews.take(0) =~= Seq::<crate::val::Val>::empty());
        }
        while i < components.len()
            invariant
                i <= components@.len(),
                cviews == crate::val::views_of(components@),
                s@ == strs_concat(cviews.take(i as int)),
            decreases components@.len() - i,
        {
            let part = crate::val::to_display_string(&components[i]);
            crate::val::string_append(&mut s, &part);
            proof {
                lemma_strs_concat_take(cviews, i as int);
                assert(cviews[i as int] == components@[i as int]@);
            }
            i = i + 1;
        }
        proof {
            assert(cviews.take(components@.len() as int) =~= cviews);
        }
        self.push_val(Value::String(s));
        proof {
            assert(self.vals@ =~= old(self).vals@.take(
                old(self).vals@.len() - len,
            ).push(self.vals@.last()));
        }
        Ok(())
    }

    /// Rebuilds the popped array with the popped index replaced by the
    /// popped update, copying: an integer index updates one position
    /// exactly as [`crate::arr::spec_update_single`] says, a range pairs
    /// walked positions with the update array's elements.
    fn eval_update_index(&mut self, span: Span) -> (r: Result<(), Failure>)
        ensures
            final(self).cont_stack@ == old(self).cont_stack@,
            final(self).action_stack@ == old(self).action_stack@,
            final(self).call_stack@ == old(self).call_stack@,
            final(self).package == old(self).package,
            final(self).current_span == old(self).current_span,
            old(self).vals@.len() < 3 ==> r is Err,
            r is Ok ==> old(self).vals@.len() >= 3 && final(self).vals@.len() == old(self).vals@.len() - 2,
            old(self).vals@.len() >= 3 && !(old(self).vals@.last()@ is Array) ==> r == Result::<
                (),
                Failure,
            >::Err(Failure::Fault(Fault::TypeMismatch)),
            old(self).vals@.len() >= 3 && old(self).vals@.last()@ is Array ==> ({
                let n = old(self).vals@.len();
                let arrv = old(self).vals@.last()@->Array_0;
                let update = old(self).vals@[n - 2]@;
                match old(self).vals@[n - 3]@ {
                    crate::val::Val::Int(i) => match crate::arr::spec_update_single(
                        arrv,
                        i,
                        update,
                        old(self).spec_global_span(span),
                    ) {
                        Result::Ok(outv) => r is Ok && final(self).vals@ == old(self).vals@.take(
                            n - 3,
                        ).push(final(self).vals@.last()) && final(self).vals@.last()@
                            == crate::val::Val::Array(outv),
                        Result::Err(e) => r == Result::<(), Failure>::Err(Failure::Program(e)),
                    },
                    crate::val::Val::Range(start, step, end) => step == 0
                        && update is Array ==> r == Result::<(), Failure>::Err(
                        Failure::Program(
                            Error::RangeStepZero(old(self).spec_global_span(span)),
                        ),
                    ),
                    crate::val::Val::Array(_) => r == Result::<(), Failure>::Err(
                        Failure::Fault(Fault::TypeMismatch),
                    ),
                    _ => true,
                }
            }),
    {
        let values = match self.pop_val() {
            Ok(v) => v,
            Err(f) => {
                return Err(Failure::Fault(f));
            },
        };
        let update = match self.pop_val() {
            Ok(v) => v,
            Err(f) => {
                return Err(Failure::Fault(f));
            },
        };
        let index = match self.pop_val() {
            Ok(v) => v,
            Err(f) => {
                return Err(Failure::Fault(f));
            },
        };
        let items = match values {
            Value::Array(items) => items,
            _ => {
                return Err(Failure::Fault(Fault::TypeMismatch));
            },
        };
        proof {
            crate::val::lemma_vview_array(items);
        }
        let gspan = self.to_global_span(span);
        match index {
            Value::Int(i) => {
                match crate::arr::update_index_single(&items, i, update, gspan) {
                    Ok(out) => {
                        let result = Value::Array(out);
                        proof {
                            crate::val::lemma_vview_array(result->Array_0);
                        }
                        self.push_val(result);
                        proof {
                            assert(self.vals@ =~= old(self).vals@.take(
                                old(self).vals@.len() - 3,
                            ).push(self.vals@.last()));
                        }
                        Ok(())
                    },
                    Err(e) => Err(Failure::Program(e)),
                }
            },
            Value::Range(start, step, end) => {
                proof {
                    assert(index@ == crate::val::Val::Range(start, step, end));
                }
                let upd_items = match update {
                    Value::Array(u) => u,
                    _ => {
                        return Err(Failure::Fault(Fault::TypeMismatch));
                    },
                };
                proof {
                    crate::val::lemma_vview_array(upd_items);
                    assert(update@ == crate::val::Val::Array(crate::val::views_of(upd_items@)));
                }
                match crate::arr::update_index_range(&items, start, step, end, &upd_items, gspan) {
                    Ok(out) => {
                        self.push_val(Value::Array(out));
                        Ok(())
                    },
                    Err(e) => Err(Failure::Program(e)),
                }
            },
            _ => Err(Failure::Fault(Fault::TypeMismatch)),
        }
    }

    /// Updates the array bound to a mutable local at the popped index with
    /// the popped update, writing through the binding.
    #[verifier::rlimit(80)]
    fn eval_update_index_in_place(&mut self, env: &mut Env, store: &crate::fir::PackageStore,
        lhs: ExprId, span: Span) -> (r: Result<(), Failure>)
        requires
            store.wf(),
            store.valid_expr(old(self).package, lhs),
        ensures
            final(self).cont_stack@ == old(self).cont_stack@,
            final(self).action_stack@ == old(self).action_stack@,
            final(self).call_stack@ == old(self).call_stack@,
            final(self).package == old(self).package,
            final(self).current_span == old(self).current_span,
            final(env).depth() == old(env).depth(),
            old(self).vals@.len() < 2 ==> r == Result::<(), Failure>::Err(
                Failure::Fault(Fault::StackUnderflow),
            ),
            r is Ok ==> old(self).vals@.len() >= 2 && final(self).vals@ == old(self).vals@.take(
                old(self).vals@.len() - 2,
            ),
            r is Ok ==> (store.spec_expr(old(self).package, lhs).kind matches
                crate::fir::ExprKind::Var(crate::fir::Res::Local(id)) ==> ({
                let n = old(self).vals@.len();
                let gspan = old(self).spec_global_span(span);
                let pre = crate::env::env_find(old(env).0@, id);
                let post = crate::env::env_find(final(env).0@, id);
                &&& pre is Some && pre->Some_0.mutability is Mutable && pre->Some_0.value
                    is Array
                &&& post is Some && post->Some_0.value is Array
                &&& (old(self).vals@[n - 2]@ matches crate::val::Val::Int(i)
                    ==> crate::arr::spec_update_single(
                    pre->Some_0.value->Array_0,
                    i,
                    old(self).vals@[n - 1]@,
                    gspan,
                ) == Result::<Seq<crate::val::Val>, Error>::Ok(post->Some_0.value->Array_0))
                &&& (forall|id2: LocalVarId|
                    id2 != id ==> #[trigger] crate::env::env_find(final(env).0@, id2)
                        == crate::env::env_find(old(env).0@, id2))
            })),
    {
        let update = match self.pop_val() {
            Ok(v) => v,
            Err(f) => {
                return Err(Failure::Fault(f));
            },
        };
        let index = match self.pop_val() {
            Ok(v) => v,
            Err(f) => {
                return Err(Failure::Fault(f));
            },
        };
        let lhs_node = store.get_expr(self.package, lhs);
        let id = match &lhs_node.kind {
            crate::fir::ExprKind::Var(crate::fir::Res::Local(id)) => *id,
            _ => {
                return Err(Failure::Fault(Fault::UnassignablePattern));
            },
        };
        let (bound, mutability) = match env.get(id) {
            Option::Some(p) => p,
            Option::None => {
                let gspan = self.to_global_span(lhs_node.span);
                return Err(Failure::Program(Error::UnboundName(gspan)));
            },
        };
        if matches!(mutability, Mutability::Immutable) {
            return Err(Failure::Fault(Fault::AssignToImmutable));
        }
        let items = match bound {
            Value::Array(items) => items,
            _ => {
                return Err(Failure::Fault(Fault::TypeMismatch));
            },
        };
        proof {
            crate::val::lemma_vview_array(items);
        }
        let gspan = self.to_global_span(span);
        let updated = match index {
            Value::Int(i) => {
                if i < 0 {
                    return Err(Failure::Program(Error::InvalidNegativeInt(i, gspan)));
                }
                match crate::arr::update_index_single(&items, i, update, gspan) {
                    Ok(out) => out,
                    Err(e) => {
                        return Err(Failure::Program(e));
                    },
                }
            },
            Value::Range(start, step, end) => {
                let upd_items = match update {
                    Value::Array(u) => u,
                    _ => {
                        return Err(Failure::Fault(Fault::TypeMismatch));
                    },
                };
                match crate::arr::update_index_range(&items, start, step, end, &upd_items, gspan) {
                    Ok(out) => {
                        proof {
                            assert(crate::val::views_of(items@).len() == items@.len());
                            assert(crate::arr::spec_update_range(
                                crate::val::views_of(items@),
                                crate::arr::range_idx_seq(
                                    crate::arr::resolved_start(items@.len() as int, start, step),
                                    step as int,
                                    crate::arr::resolved_end(items@.len() as int, step, end),
                                ),
                                crate::val::views_of(upd_items@),
                                gspan,
                            ) == Result::<Seq<crate::val::Val>, Error>::Ok(
                                crate::val::views_of(out@),
                            ));
                        }
                        out
                    },
                    Err(e) => {
                        return Err(Failure::Program(e));
                    },
                }
            },
            _ => {
                return Err(Failure::Fault(Fault::TypeMismatch));
            },
        };
        proof {
            crate::val::lemma_vview_array(updated);
        }
        match env.assign(id, Value::Array(updated)) {
            crate::env::BindOutcome::Updated => {
                proof {
                    assert(self.vals@ =~= old(self).vals@.take(old(self).vals@.len() - 2));
                    assert(crate::env::env_find(old(env).0@, id) matches Option::Some(v0b)
                        && v0b.value == crate::val::Val::Array(crate::val::views_of(items@)));
                    assert(crate::env::env_find(env.0@, id) matches Option::Some(v1b)
                        && v1b.value == crate::val::Val::Array(crate::val::views_of(updated@)));
                    assert(index@ == old(self).vals@[old(self).vals@.len() - 2]@);
                    assert(update@ == old(self).vals@[old(self).vals@.len() - 1]@);
                    assert(gspan == old(self).spec_global_span(span));
                    assert(crate::val::views_of(items@).len() == items@.len());
                }
                Ok(())
            },
            crate::env::BindOutcome::NotFound => {
                let gspan2 = self.to_global_span(lhs_node.span);
                Err(Failure::Program(Error::UnboundName(gspan2)))
            },
            crate::env::BindOutcome::Immutable => Err(Failure::Fault(Fault::AssignToImmutable)),
        }
    }

    /// Appends the popped array to the array bound to a mutable local,
    /// writing through the binding.
    fn eval_array_append_in_place(&mut self, env: &mut Env, store: &crate::fir::PackageStore,
        lhs: ExprId) -> (r: Result<(), Failure>)
        requires
            store.wf(),
            store.valid_expr(old(self).package, lhs),
        ensures
            final(self).cont_stack@ == old(self).cont_stack@,
            final(self).action_stack@ == old(self).action_stack@,
            final(self).call_stack@ == old(self).call_stack@,
            final(self).package == old(self).package,
            final(self).current_span == old(self).current_span,
            final(env).depth() == old(env).depth(),
            old(self).vals@.len() == 0 ==> r == Result::<(), Failure>::Err(
                Failure::Fault(Fault::StackUnderflow),
            ),
            r is Ok ==> old(self).vals@.len() >= 1 && final(self).vals@ == old(self).vals@.drop_last(),
    {
        let rhs = match self.pop_val() {
            Ok(v) => v,
            Err(f) => {
                return Err(Failure::Fault(f));
            },
        };
        let mut rhs_items = match rhs {
            Value::Array(items) => items,
            _ => {
                return Err(Failure::Fault(Fault::TypeMismatch));
            },
        };
        let lhs_node = store.get_expr(self.package, lhs);
        let id = match &lhs_node.kind {
            crate::fir::ExprKind::Var(crate::fir::Res::Local(id)) => *id,
            _ => {
                return Err(Failure::Fault(Fault::UnassignablePattern));
            },
        };
        let (bound, mutability) = match env.get(id) {
            Option::Some(p) => p,
            Option::None => {
                let gspan = self.to_global_span(lhs_node.span);
                return Err(Failure::Program(Error::UnboundName(gspan)));
            },
        };
        if matches!(mutability, Mutability::Immutable) {
            return Err(Failure::Fault(Fault::AssignToImmutable));
        }
        let mut items = match bound {
            Value::Array(items) => items,
            _ => {
                return Err(Failure::Fault(Fault::TypeMismatch));
            },
        };
        items.append(&mut rhs_items);
        match env.assign(id, Value::Array(items)) {
            crate::env::BindOutcome::Updated => Ok(()),
            crate::env::BindOutcome::NotFound => {
                let gspan = self.to_global_span(lhs_node.span);
                Err(Failure::Program(Error::UnboundName(gspan)))
            },
            crate::env::BindOutcome::Immutable => Err(Failure::Fault(Fault::AssignToImmutable)),
        }
    }

    /// Applies the unary operation to the popped value: the result of
    /// [`crate::binop::spec_unop`] replaces it, a mismatched operand is a
    /// fault, and an empty stack underflows.
    fn eval_unop(&mut self, op: UnOp) -> (r: Result<(), Fault>)
        ensures
            final(self).cont_stack@ == old(self).cont_stack@,
            final(self).action_stack@ == old(self).action_stack@,
            final(self).call_stack@ == old(self).call_stack@,
            final(self).package == old(self).package,
            final(self).current_span == old(self).current_span,
            old(self).vals@.len() == 0 ==> r == Result::<(), Fault>::Err(Fault::StackUnderflow),
            old(self).vals@.len() >= 1 ==> match crate::binop::spec_unop(
                op,
                old(self).vals@.last()@,
            ) {
                crate::binop::OpOut::Value(v) => r is Ok && final(self).vals@.len() == old(self).vals@.len() && final(self).vals@.drop_last() == old(self).vals@.drop_last()
                    && final(self).vals@.last()@ == v,
                crate::binop::OpOut::Fail(_) => false,
                crate::binop::OpOut::Mismatch => r == Result::<(), Fault>::Err(
                    Fault::TypeMismatch,
                ),
                crate::binop::OpOut::Hosted => false,
            },
    {
        let val = match self.pop_val() {
            Ok(v) => v,
            Err(f) => {
                return Err(f);
            },
        };
        let result = match crate::binop::eval_unop_value(op, val) {
            Ok(v) => v,
            Err(f) => {
                return Err(f);
            },
        };
        self.push_val(result);
        proof {
            assert(self.vals@.drop_last() =~= old(self).vals@.drop_last());
        }
        Ok(())
    }

    /// Projects a field out of the popped record: a range's primitive
    /// fields, or a recorded tuple path.
    fn eval_field(&mut self, field: Field) -> (r: Result<(), Fault>)
        ensures
            final(self).cont_stack@ == old(self).cont_stack@,
            final(self).action_stack@ == old(self).action_stack@,
            final(self).call_stack@ == old(self).call_stack@,
            final(self).package == old(self).package,
            final(self).current_span == old(self).current_span,
            old(self).vals@.len() == 0 ==> r == Result::<(), Fault>::Err(Fault::StackUnderflow),
            r is Ok ==> old(self).vals@.len() >= 1 && final(self).vals@.len() == old(self).vals@.len() && final(self).vals@.drop_last() == old(self).vals@.drop_last(),
    {
        let record = match self.pop_val() {
            Ok(v) => v,
            Err(f) => {
                return Err(f);
            },
        };
        let out = match (&record, &field) {
            (Value::Range(start, _, _), Field::Prim(crate::fir::PrimField::Start)) => {
                match start {
                    Option::Some(s) => Value::Int(*s),
                    Option::None => {
                        return Err(Fault::InvalidFieldAccess);
                    },
                }
            },
            (Value::Range(_, step, _), Field::Prim(crate::fir::PrimField::Step)) => Value::Int(
                *step,
            ),
            (Value::Range(_, _, end), Field::Prim(crate::fir::PrimField::End)) => {
                match end {
                    Option::Some(e) => Value::Int(*e),
                    Option::None => {
                        return Err(Fault::InvalidFieldAccess);
                    },
                }
            },
            (_, Field::Path(path)) => {
                match crate::val::follow_field_path(&record, path) {
                    Option::Some(v) => v,
                    Option::None => {
                        return Err(Fault::InvalidFieldAccess);
                    },
                }
            },
            _ => {
                return Err(Fault::InvalidFieldAccess);
            },
        };
        self.push_val(out);
        proof {
            assert(self.vals@.drop_last() =~= old(self).vals@.drop_last());
        }
        Ok(())
    }

    /// Rebuilds the popped record with one component replaced by the popped
    /// value: a range's primitive fields, or a recorded tuple path.
    fn eval_update_field(&mut self, field: Field) -> (r: Result<(), Fault>)
        ensures
            final(self).cont_stack@ == old(self).cont_stack@,
            final(self).action_stack@ == old(self).action_stack@,
            final(self).call_stack@ == old(self).call_stack@,
            final(self).package == old(self).package,
            final(self).current_span == old(self).current_span,
            old(self).vals@.len() < 2 ==> r is Err,
            r is Ok ==> old(self).vals@.len() >= 2 && final(self).vals@.len() == old(self).vals@.len() - 1,
    {
        let value = match self.pop_val() {
            Ok(v) => v,
            Err(f) => {
                return Err(f);
            },
        };
        let record = match self.pop_val() {
            Ok(v) => v,
            Err(f) => {
                return Err(f);
            },
        };
        let out = match (record, &field) {
            (Value::Range(_, step, end), Field::Prim(crate::fir::PrimField::Start)) => {
                match value {
                    Value::Int(v) => Value::Range(Some(v), step, end),
                    _ => {
                        return Err(Fault::TypeMismatch);
                    },
                }
            },
            (Value::Range(start, _, end), Field::Prim(crate::fir::PrimField::Step)) => {
                match value {
                    Value::Int(v) => Value::Range(start, v, end),
                    _ => {
                        return Err(Fault::TypeMismatch);
                    },
                }
            },
            (Value::Range(start, step, _), Field::Prim(crate::fir::PrimField::End)) => {
                match value {
                    Value::Int(v) => Value::Range(start, step, Some(v)),
                    _ => {
                        return Err(Fault::TypeMismatch);
                    },
                }
            },
            (record, Field::Path(path)) => {
                match crate::val::update_field_path(&record, path, &value) {
                    Option::Some(v) => v,
                    Option::None => {
                        return Err(Fault::InvalidFieldAccess);
                    },
                }
            },
            _ => {
                return Err(Fault::InvalidFieldAccess);
            },
        };
        self.push_val(out);
        Ok(())
    }

    /// Loops on the popped condition: when true, the next test is
    /// rescheduled behind the body, whose value a consuming action drops;
    /// when false, unit remains as the loop's value. Each iteration leaves
    /// the value stack exactly as it found it.
    fn eval_while(&mut self, env: &mut Env, store: &crate::fir::PackageStore, cond_expr: ExprId,
        block: BlockId) -> (r: Result<(), Fault>)
        requires
            old(self).wf(),
            store.wf(),
        ensures
            final(self).wf(),
            final(self).balance(*final(env)) == old(self).balance(*old(env)),
            final(self).call_stack@ == old(self).call_stack@,
            final(self).package == old(self).package,
            final(self).current_span == old(self).current_span,
    {
        let cond = match self.pop_val() {
            Ok(v) => v,
            Err(f) => {
                return Err(f);
            },
        };
        let b = match cond {
            Value::Bool(b) => b,
            _ => {
                return Err(Fault::TypeMismatch);
            },
        };
        if b {
            if !(self.package < store.packages.len() && block < store.get_package_blocks_len(
                self.package,
            )) {
                return Err(Fault::MissingNode);
            }
            let ghost c0 = self.cont_stack@;
            self.cont_while(cond_expr, block);
            proof {
                lemma_count_push(c0, Cont::Action);
                lemma_count_push(c0.push(Cont::Action), Cont::Expr(cond_expr));
            }
            let ghost c1 = self.cont_stack@;
            self.push_action(Action::Consume);
            proof {
                lemma_count_push(c1, Cont::Action);
            }
            self.push_block(env, store, block);
        } else {
            self.push_val(Value::unit());
        }
        Ok(())
    }
}


/// What one driver step did: advanced the machine, yielded a step result,
/// failed with a program error and its call-stack snapshot, or faulted.
pub enum StepFlow {
    Advanced,
    Yielded(StepResult),
    Failed(Error, Vec<Frame>),
    Faulted(Fault),
}

/// How a run ended abnormally: a program error with the call stack at the
/// point of failure, an engine fault on ill-formed input, or an exhausted
/// step budget.
#[derive(Debug)]
pub enum EvalError {
    Program(Error, Vec<Frame>),
    Fault(Fault),
    OutOfSteps,
}

/// Whether a statement id is among the breakpoints.
fn contains_stmt(bps: &Vec<StmtId>, s: StmtId) -> (r: bool)
    ensures
        r == bps@.contains(s),
{
    let mut i: usize = 0;
    while i < bps.len()
        invariant
            i <= bps@.len(),
            forall|j: int| 0 <= j < i ==> bps@[j] != s,
        decreases bps@.len() - i,
    {
        if bps[i] == s {
            return true;
        }
        i = i + 1;
    }
    false
}

impl State {
    /// Binds call arguments for the selected specialization: a controlled
    /// specialization first peels one two-tuple layer per control
    /// application, collecting the control qubits into one array bound to
    /// the specialization's own pattern; the declaration's input pattern
    /// then binds the remaining argument, preceded by any captured values.
    /// Both bindings are immutable and go to the innermost scope.
    fn bind_args_for_spec(&self, env: &mut Env, store: &crate::fir::PackageStore, decl_pat:
        PatId, spec_pat: Option<PatId>, args_val: Value, ctl_count: u8, fixed_args: Option<
        Vec<Value>,
    >) -> (r: Result<(), Fault>)
        requires
            store.wf(),
            store.valid_pat(self.package, decl_pat),
            spec_pat matches Option::Some(p) ==> store.valid_pat(self.package, p),
        ensures
            final(env).depth() == old(env).depth(),
            spec_pat is Some && ctl_count == 0 ==> r == Result::<(), Fault>::Err(
                Fault::ArityMismatch,
            ),
            spec_pat is Some && ctl_count > 0 && spec_peel(args_val@, ctl_count as nat) is None
                ==> r is Err,
            spec_pat matches Option::Some(p) ==> (ctl_count > 0 && old(env).depth() > 0
                ==> spec_ctl_bind_outcome(
                *store,
                self.package,
                p,
                decl_pat,
                args_val@,
                ctl_count as nat,
                fixed_args,
                old(env).0@.last().bview(),
                final(env).0@.last().bview(),
                r is Ok,
            )),
            spec_pat is None ==> (old(env).depth() > 0 ==> spec_plain_bind_outcome(
                *store,
                self.package,
                decl_pat,
                args_val@,
                fixed_args,
                old(env).0@.last().bview(),
                final(env).0@.last().bview(),
                r is Ok,
            )),
    {
        match spec_pat {
            Option::Some(sp) => {
                if ctl_count == 0 {
                    return Err(Fault::ArityMismatch);
                }
                let ghost args0 = args_val@;
                let mut tup = args_val;
                let mut ctls: Vec<Value> = Vec::new();
                let mut k: u8 = 0;
                proof {
                    assert(crate::val::views_of(ctls@) =~= Seq::<crate::val::Val>::empty());
                }
                while k < ctl_count
                    invariant
                        k <= ctl_count,
                        spec_pat == Option::Some(sp),
                        ctl_count > 0,
                        args0 == args_val@,
                        env.depth() == old(env).depth(),
                        env.0@ == old(env).0@,
                        spec_peel(args0, ctl_count as nat) == (match spec_peel(
                            tup@,
                            (ctl_count - k) as nat,
                        ) {
                            Option::Some((c2, rest)) => Option::Some(
                                (crate::val::views_of(ctls@).add(c2), rest),
                            ),
                            Option::None => Option::<(Seq<crate::val::Val>, crate::val::Val)>::None,
                        }),
                    decreases ctl_count - k,
                {
                    let ghost pre_tup = tup@;
                    let ghost pre_ctls = crate::val::views_of(ctls@);
                    let mut items = match tup {
                        Value::Tuple(items) => items,
                        _ => {
                            return Err(Fault::ArityMismatch);
                        },
                    };
                    proof {
                        crate::val::lemma_vview_tuple(items);
                    }
                    if items.len() != 2 {
                        return Err(Fault::ArityMismatch);
                    }
                    let rest = match items.pop() {
                        Option::Some(v) => v,
                        Option::None => {
                            return Err(Fault::ArityMismatch);
                        },
                    };
                    let c = match items.pop() {
                        Option::Some(v) => v,
                        Option::None => {
                            return Err(Fault::ArityMismatch);
                        },
                    };
                    let mut c_items = match c {
                        Value::Array(items) => items,
                        _ => {
                            return Err(Fault::TypeMismatch);
                        },
                    };
                    proof {
                        crate::val::lemma_vview_array(c_items);
                    }
                    let ghost c_views = crate::val::views_of(c_items@);
                    ctls.append(&mut c_items);
                    proof {
                        assert(crate::val::views_of(ctls@) =~= pre_ctls.add(c_views));
                        assert(pre_tup matches crate::val::Val::Tuple(pair) && pair.len() == 2
                            && pair[0] == crate::val::Val::Array(c_views) && pair[1] == rest@);
                        match spec_peel(rest@, (ctl_count - k - 1) as nat) {
                            Option::Some((c2, _)) => {
                                assert(pre_ctls.add(c_views.add(c2)) =~= pre_ctls.add(
                                    c_views,
                                ).add(c2));
                            },
                            Option::None => {},
                        }
                    }
                    tup = rest;
                    k = k + 1;
                }
                proof {
                    assert(crate::val::views_of(ctls@).add(Seq::<crate::val::Val>::empty())
                        =~= crate::val::views_of(ctls@));
                }
                let fuel = store.get_package_pats_len(self.package);
                let ctl_arr = Value::Array(ctls);
                proof {
                    crate::val::lemma_vview_array(ctl_arr->Array_0);
                }
                match self.bind_value(
                    env,
                    store,
                    sp,
                    ctl_arr,
                    Mutability::Immutable,
                    fuel,
                ) {
                    Ok(()) => {},
                    Err(f) => {
                        return Err(f);
                    },
                }
                let merged = merge_fixed_args(fixed_args, tup);
                self.bind_value(env, store, decl_pat, merged, Mutability::Immutable, fuel)
            },
            Option::None => {
                let merged = merge_fixed_args(fixed_args, args_val);
                let fuel = store.get_package_pats_len(self.package);
                self.bind_value(env, store, decl_pat, merged, Mutability::Immutable, fuel)
            },
        }
    }

    /// Fires a call: pops the argument, then the callable — which the
    /// backend receives by the callee's declared name together with that
    /// argument when the callee is intrinsic. A user-defined type
    /// constructor is the identity on the argument. Otherwise a frame and
    /// scope are entered; an intrinsic's returned unit is checked against
    /// the declared output; a user callable has the specialization
    /// selected by the functor application bound and its body scheduled.
    fn eval_call<B: crate::host::Backend<R>, R: crate::host::Receiver>(
        &mut self,
        env: &mut Env,
        sim: &mut B,
        store: &crate::fir::PackageStore,
        callable_span: Span,
        arg_span: Span,
        out: &mut R,
    ) -> (r: Result<(), Failure>)
        requires
            old(self).wf(),
            store.wf(),
        ensures
            final(self).wf(),
            final(self).balance(*final(env)) == old(self).balance(*old(env)),
            final(self).current_span == old(self).current_span,
            old(self).vals@.len() < 2 ==> r == Result::<(), Failure>::Err(
                Failure::Fault(Fault::StackUnderflow),
            ),
            old(self).vals@.len() >= 2 ==> ({
                let n = old(self).vals@.len();
                let arg = old(self).vals@[n - 1];
                match spec_callee_of(old(self).vals@[n - 2]@) {
                    Option::None => r == Result::<(), Failure>::Err(
                        Failure::Fault(Fault::NotCallable),
                    ) && final(self).vals@ == old(self).vals@.take(n - 2)
                        && final(self).cont_stack@ == old(self).cont_stack@
                        && final(self).call_stack@ == old(self).call_stack@,
                    Option::Some((id, functor)) => match store.spec_global(id) {
                        Option::None => r == Result::<(), Failure>::Err(
                            Failure::Program(
                                Error::UnboundName(old(self).spec_global_span(callable_span)),
                            ),
                        ) && final(self).vals@ == old(self).vals@.take(n - 2)
                            && final(self).cont_stack@ == old(self).cont_stack@
                            && final(self).call_stack@ == old(self).call_stack@,
                        Option::Some(crate::fir::Global::Udt) => r is Ok && final(self).vals@
                            == old(self).vals@.take(n - 2).push(arg) && final(self).cont_stack@
                            == old(self).cont_stack@ && final(self).call_stack@ == old(self).call_stack@ && final(env).depth() == old(env).depth(),
                        Option::Some(crate::fir::Global::Callable(decl)) => {
                            &&& final(self).call_stack@ == old(self).call_stack@.push(
                                Frame {
                                    span: old(self).current_span,
                                    id,
                                    caller: old(self).package,
                                    functor,
                                },
                            )
                            &&& final(self).package == id.package
                            &&& final(env).depth() > old(env).depth()
                            &&& (decl.implementation matches crate::fir::CallableImpl::Spec(s)
                                && spec_selected(s, functor) is None ==> r == Result::<
                                (),
                                Failure,
                            >::Err(Failure::Fault(Fault::MissingSpecialization)))
                            &&& (r is Ok && decl.implementation is Spec
                                ==> spec_selected(
                                decl.implementation->Spec_0,
                                functor,
                            ) is Some)
                            &&& (r matches Result::Err(Failure::Program(
                                Error::UnsupportedIntrinsicType(nm, sp),
                            )) ==> decl.implementation is Intrinsic && !(
                            decl.output is Unit) && nm@ == decl.name@ && sp == old(self).spec_global_span(decl.span))
                            &&& (r is Ok && decl.implementation is Intrinsic ==> final(self).vals@.len() == n - 1 && final(self).vals@.take(n - 2) == old(self).vals@.take(n - 2) && (final(self).vals@.last()@ is Unit
                                ==> decl.output is Unit))
                        },
                    },
                }
            }),
    {
        let arg = match self.pop_val() {
            Ok(v) => v,
            Err(f) => {
                return Err(Failure::Fault(f));
            },
        };
        let callee_val = match self.pop_val() {
            Ok(v) => v,
            Err(f) => {
                return Err(Failure::Fault(f));
            },
        };
        let (callee_id, functor, fixed_args) = match callee_val {
            Value::Closure(args, id, functor) => (id, functor, Some(args)),
            Value::Global(id, functor) => (id, functor, None),
            _ => {
                proof {
                    assert(self.vals@ =~= old(self).vals@.take(old(self).vals@.len() - 2));
                }
                return Err(Failure::Fault(Fault::NotCallable));
            },
        };
        let arg_span_g = self.to_global_span(arg_span);
        let callee = match store.get_global(callee_id) {
            Option::Some(crate::fir::Global::Callable(decl)) => decl,
            Option::Some(crate::fir::Global::Udt) => {
                self.push_val(arg);
                proof {
                    assert(self.vals@ =~= old(self).vals@.take(
                        old(self).vals@.len() - 2,
                    ).push(old(self).vals@.last()));
                }
                return Ok(());
            },
            Option::None => {
                let gspan = self.to_global_span(callable_span);
                proof {
                    assert(self.vals@ =~= old(self).vals@.take(old(self).vals@.len() - 2));
                }
                return Err(Failure::Program(Error::UnboundName(gspan)));
            },
        };
        let callee_span = self.to_global_span(callee.span);
        proof {
            let p = store.packages@[callee_id.package as int];
            assert(crate::fir::wf_package(p));
            assert(crate::fir::wf_global(p, p.items[callee_id.item as int]));
        }
        let spec_sel = spec_from_functor_app(functor);
        let ghost c0 = self.cont_stack@;
        let ghost frame_len = self.vals@.len() as usize;
        self.push_frame(callee_id, functor);
        proof {
            lemma_count_push(c0, Cont::Frame(frame_len));
        }
        self.push_scope(env);
        proof {
            lemma_count_push(c0.push(Cont::Frame(frame_len)), Cont::Scope);
        }
        match &callee.implementation {
            crate::fir::CallableImpl::Intrinsic => {
                let val = match sim.call_intrinsic(&callee.name, arg, &mut self.rng, out) {
                    Ok(v) => v,
                    Err(fault) => {
                        return Err(
                            Failure::Program(intrinsic_error(&callee.name, fault, callee_span,
                                arg_span_g)),
                        );
                    },
                };
                let val = match check_intrinsic_return(val, &callee.output, &callee.name,
                    callee_span) {
                    Ok(v) => v,
                    Err(f) => {
                        return Err(f);
                    },
                };
                self.push_val(val);
                proof {
                    assert(self.vals@.drop_last() =~= old(self).vals@.take(
                        old(self).vals@.len() - 2,
                    ));
                    assert(self.vals@.take(old(self).vals@.len() - 2) =~= old(self).vals@.take(
                        old(self).vals@.len() - 2,
                    ));
                }
                Ok(())
            },
            crate::fir::CallableImpl::Spec(specialized) => {
                let spec_decl = match spec_sel {
                    Spec::Body => Some(&specialized.body),
                    Spec::Adj => specialized.adj.as_ref(),
                    Spec::Ctl => specialized.ctl.as_ref(),
                    Spec::CtlAdj => specialized.ctl_adj.as_ref(),
                };
                let spec_decl = match spec_decl {
                    Option::Some(d) => d,
                    Option::None => {
                        return Err(Failure::Fault(Fault::MissingSpecialization));
                    },
                };
                match self.bind_args_for_spec(
                    env,
                    store,
                    callee.input,
                    spec_decl.input,
                    arg,
                    functor.controlled,
                    fixed_args,
                ) {
                    Ok(()) => {},
                    Err(f) => {
                        return Err(Failure::Fault(f));
                    },
                }
                self.push_block(env, store, spec_decl.block);
                Ok(())
            },
        }
    }

    /// Fires one action on its operands, with the outcome each action's
    /// evaluator owes: success exactly where its semantics allow, the
    /// stated program error or fault otherwise. An action naming a node
    /// outside the current package faults with `MissingNode` before
    /// anything is consumed.
    #[verifier::rlimit(60)]
    fn cont_action<B: crate::host::Backend<R>, R: crate::host::Receiver>(
        &mut self,
        env: &mut Env,
        sim: &mut B,
        store: &crate::fir::PackageStore,
        action: Action,
        out: &mut R,
    ) -> (r: Result<(), Failure>)
        requires
            old(self).wf(),
            store.wf(),
            old(self).balance(*old(env)) >= 1,
        ensures
            r is Ok ==> final(self).wf() && final(self).balance(*final(env)) == old(self).balance(*old(env)),
            ({
                let v0 = old(self).vals@;
                let vs = final(self).vals@;
                match action {
                    Action::Array(len) => (v0.len() < len ==> r == Result::<(), Failure>::Err(
                        Failure::Fault(Fault::StackUnderflow),
                    )) && (v0.len() >= len ==> r is Ok && vs == v0.take(v0.len() - len).push(
                        vs.last(),
                    ) && vs.last()@ == crate::val::Val::Array(
                        crate::val::views_of(v0.skip(v0.len() - len)),
                    )),
                    Action::ArrayAppendInPlace(lhs) => (!store.valid_expr(
                        old(self).package,
                        lhs,
                    ) ==> r == Result::<(), Failure>::Err(Failure::Fault(Fault::MissingNode)))
                        && (store.valid_expr(old(self).package, lhs) ==> (v0.len() == 0 ==> r
                        == Result::<(), Failure>::Err(Failure::Fault(Fault::StackUnderflow)))
                        && (r is Ok ==> v0.len() >= 1 && vs == v0.drop_last() && final(env).depth() == old(env).depth())),
                    Action::ArrayRepeat(span) => (v0.len() == 0 ==> r == Result::<
                        (),
                        Failure,
                    >::Err(Failure::Fault(Fault::StackUnderflow))) && (v0.len() >= 2
                        && v0.last()@ is Int ==> ({
                        let size = v0.last()@->Int_0;
                        if size < 0 || size > usize::MAX {
                            r == Result::<(), Failure>::Err(
                                Failure::Program(
                                    Error::InvalidArrayLength(
                                        size,
                                        old(self).spec_global_span(span),
                                    ),
                                ),
                            )
                        } else {
                            r is Ok && vs.len() == v0.len() - 1 && vs.last()@
                                == crate::val::Val::Array(
                                Seq::new(size as nat, |i: int| v0[v0.len() - 2]@),
                            )
                        }
                    })),
                    Action::Assign(lhs) => (!store.valid_expr(old(self).package, lhs) ==> r
                        == Result::<(), Failure>::Err(Failure::Fault(Fault::MissingNode))) && (
                    store.valid_expr(old(self).package, lhs) ==> (v0.len() == 0 ==> r == Result::<
                        (),
                        Failure,
                    >::Err(Failure::Fault(Fault::StackUnderflow))) && (r is Ok ==> v0.len() >= 1
                        && vs == v0.drop_last() && final(env).depth() == old(env).depth())),
                    Action::Bind(pat, _) => (!store.valid_pat(old(self).package, pat) ==> r
                        == Result::<(), Failure>::Err(Failure::Fault(Fault::MissingNode))) && (
                    store.valid_pat(old(self).package, pat) ==> (v0.len() == 0 ==> r == Result::<
                        (),
                        Failure,
                    >::Err(Failure::Fault(Fault::StackUnderflow))) && (r is Ok ==> v0.len() >= 1
                        && vs == v0.drop_last() && final(env).depth() == old(env).depth())),
                    Action::BinOp(op, span, rhs) => (!(op is AndL) && !(op is OrL) && v0.len()
                        >= 2 ==> ({
                        let o = crate::binop::spec_binop(
                            op,
                            v0[v0.len() - 2]@,
                            v0[v0.len() - 1]@,
                            old(self).spec_global_span(span),
                        );
                        &&& (r is Ok <==> (o is Value || o is Hosted))
                        &&& (r is Ok ==> vs.len() == v0.len() - 1)
                        &&& (r is Ok && o is Value ==> o == crate::binop::OpOut::Value(
                            vs.last()@,
                        ))
                        &&& (r is Ok && o is Hosted ==> vs.last()@ is Double)
                        &&& (o matches crate::binop::OpOut::Fail(e) ==> r == Result::<
                            (),
                            Failure,
                        >::Err(Failure::Program(e)))
                    })) && ((op is AndL || op is OrL) && v0.len() >= 1 && v0.last()@ is Bool
                        && rhs is Some ==> ({
                        let b = v0.last()@->Bool_0;
                        let scheduled = (op is AndL && b) || (op is OrL && !b);
                        r is Ok && (!scheduled ==> vs.len() == v0.len() && vs.last()@
                            == crate::val::Val::Bool(op is OrL)) && (scheduled ==> vs
                            == v0.drop_last() && final(self).cont_stack@ == old(self).cont_stack@.push(Cont::Expr(rhs->Some_0)))
                    })),
                    Action::Call(callable_span, _) => (v0.len() < 2 ==> r == Result::<
                        (),
                        Failure,
                    >::Err(Failure::Fault(Fault::StackUnderflow))) && (v0.len() >= 2 ==> match
                    spec_callee_of(v0[v0.len() - 2]@) {
                        Option::None => r == Result::<(), Failure>::Err(
                            Failure::Fault(Fault::NotCallable),
                        ),
                        Option::Some((id, functor)) => match store.spec_global(id) {
                            Option::None => r == Result::<(), Failure>::Err(
                                Failure::Program(
                                    Error::UnboundName(
                                        old(self).spec_global_span(callable_span),
                                    ),
                                ),
                            ),
                            Option::Some(crate::fir::Global::Udt) => r is Ok && vs == v0.take(
                                v0.len() - 2,
                            ).push(v0[v0.len() - 1]),
                            Option::Some(crate::fir::Global::Callable(decl)) => final(self).call_stack@ == old(self).call_stack@.push(
                                Frame {
                                    span: old(self).current_span,
                                    id,
                                    caller: old(self).package,
                                    functor,
                                },
                            ) && (decl.implementation matches crate::fir::CallableImpl::Spec(
                                sp,
                            ) && spec_selected(sp, functor) is None ==> r == Result::<
                                (),
                                Failure,
                            >::Err(Failure::Fault(Fault::MissingSpecialization))),
                        },
                    }),
                    Action::Consume => (v0.len() == 0 ==> r == Result::<(), Failure>::Err(
                        Failure::Fault(Fault::StackUnderflow),
                    )) && (v0.len() >= 1 ==> r is Ok && vs == v0.drop_last()),
                    Action::Fail(span) => r is Err && (v0.len() >= 1 && v0.last()@ is String
                        ==> r == Result::<(), Failure>::Err(
                        Failure::Program(
                            Error::UserFail(
                                v0.last()->String_0,
                                old(self).spec_global_span(span),
                            ),
                        ),
                    )),
                    Action::Field(_) => (v0.len() == 0 ==> r == Result::<(), Failure>::Err(
                        Failure::Fault(Fault::StackUnderflow),
                    )) && (r is Ok ==> v0.len() >= 1 && vs.len() == v0.len() && vs.drop_last()
                        == v0.drop_last()),
                    Action::If(t, e) => (v0.len() == 0 ==> r == Result::<(), Failure>::Err(
                        Failure::Fault(Fault::StackUnderflow),
                    )) && (v0.len() >= 1 && v0.last()@ is Bool ==> r is Ok && ({
                        let b = v0.last()@->Bool_0;
                        if b {
                            vs == v0.drop_last() && final(self).cont_stack@ == old(self).cont_stack@.push(Cont::Expr(t))
                        } else {
                            match e {
                                Option::Some(e) => vs == v0.drop_last() && final(self).cont_stack@ == old(self).cont_stack@.push(Cont::Expr(e)),
                                Option::None => vs == v0.drop_last().push(vs.last())
                                    && vs.last()@ == crate::val::Val::Unit,
                            }
                        }
                    })),
                    Action::Index(_) => (v0.len() < 2 ==> r == Result::<(), Failure>::Err(
                        Failure::Fault(Fault::StackUnderflow),
                    )) && (r is Ok ==> v0.len() >= 2 && vs.len() == v0.len() - 1),
                    Action::Range(has_start, has_step, has_end) => r is Ok ==> vs.len() >= 1
                        && vs.last()@ is Range,
                    Action::Return => r is Ok ==> final(self).wf(),
                    Action::StringConcat(len) => (v0.len() < len ==> r == Result::<
                        (),
                        Failure,
                    >::Err(Failure::Fault(Fault::StackUnderflow))) && (v0.len() >= len ==> r
                        is Ok && vs == v0.take(v0.len() - len).push(vs.last()) && vs.last()@
                        == crate::val::Val::String(
                        strs_concat(crate::val::views_of(v0.skip(v0.len() - len))),
                    )),
                    Action::StringLit(lit) => r is Ok && vs == v0.push(vs.last()) && vs.last()@
                        == crate::val::Val::String(lit@),
                    Action::Tuple(len) => (v0.len() < len ==> r == Result::<(), Failure>::Err(
                        Failure::Fault(Fault::StackUnderflow),
                    )) && (v0.len() >= len ==> r is Ok && vs == v0.take(v0.len() - len).push(
                        vs.last(),
                    ) && vs.last()@ == crate::val::Val::Tuple(
                        crate::val::views_of(v0.skip(v0.len() - len)),
                    )),
                    Action::UnOp(op) => (v0.len() == 0 ==> r == Result::<(), Failure>::Err(
                        Failure::Fault(Fault::StackUnderflow),
                    )) && (v0.len() >= 1 ==> match crate::binop::spec_unop(op, v0.last()@) {
                        crate::binop::OpOut::Value(v) => r is Ok && vs.len() == v0.len()
                            && vs.drop_last() == v0.drop_last() && vs.last()@ == v,
                        crate::binop::OpOut::Fail(_) => false,
                        crate::binop::OpOut::Mismatch => r == Result::<(), Failure>::Err(
                            Failure::Fault(Fault::TypeMismatch),
                        ),
                        crate::binop::OpOut::Hosted => false,
                    }),
                    Action::UpdateField(_) => (v0.len() < 2 ==> r is Err) && (r is Ok ==> v0.len()
                        >= 2 && vs.len() == v0.len() - 1),
                    Action::UpdateIndex(_) => (v0.len() < 3 ==> r is Err) && (r is Ok ==> v0.len()
                        >= 3 && vs.len() == v0.len() - 2),
                    Action::UpdateIndexInPlace(lhs, _) => (!store.valid_expr(
                        old(self).package,
                        lhs,
                    ) ==> r == Result::<(), Failure>::Err(Failure::Fault(Fault::MissingNode)))
                        && (store.valid_expr(old(self).package, lhs) ==> (v0.len() < 2 ==> r
                        == Result::<(), Failure>::Err(Failure::Fault(Fault::StackUnderflow)))
                        && (r is Ok ==> v0.len() >= 2 && vs == v0.take(v0.len() - 2) && final(env).depth() == old(env).depth())),
                    Action::While(_, _) => r is Ok ==> final(self).wf() && final(self).balance(*final(env)) == old(self).balance(*old(env)),
                }
            }),
    {
        match action {
            Action::Array(len) => {
                match self.eval_arr(len) {
                    Ok(()) => Ok(()),
                    Err(f) => Err(Failure::Fault(f)),
                }
            },
            Action::ArrayAppendInPlace(lhs) => {
                if !(self.package < store.packages.len() && lhs < store.get_package_exprs_len(
                    self.package,
                )) {
                    return Err(Failure::Fault(Fault::MissingNode));
                }
                self.eval_array_append_in_place(env, store, lhs)
            },
            Action::ArrayRepeat(span) => self.eval_arr_repeat(span),
            Action::Assign(lhs) => {
                if !(self.package < store.packages.len() && lhs < store.get_package_exprs_len(
                    self.package,
                )) {
                    return Err(Failure::Fault(Fault::MissingNode));
                }
                self.eval_assign(env, store, lhs)
            },
            Action::Bind(pat, mutability) => {
                if !(self.package < store.packages.len() && pat < store.get_package_pats_len(
                    self.package,
                )) {
                    return Err(Failure::Fault(Fault::MissingNode));
                }
                match self.eval_bind(env, store, pat, mutability) {
                    Ok(()) => Ok(()),
                    Err(f) => Err(Failure::Fault(f)),
                }
            },
            Action::BinOp(op, span, rhs) => self.eval_binop(op, span, rhs, sim),
            Action::Call(callable_span, args_span) => {
                self.eval_call(env, sim, store, callable_span, args_span, out)
            },
            Action::Consume => {
                match self.pop_val() {
                    Ok(_) => Ok(()),
                    Err(f) => Err(Failure::Fault(f)),
                }
            },
            Action::Fail(span) => self.eval_fail(span),
            Action::Field(field) => {
                match self.eval_field(field) {
                    Ok(()) => Ok(()),
                    Err(f) => Err(Failure::Fault(f)),
                }
            },
            Action::If(then_expr, else_expr) => {
                match self.eval_if(then_expr, else_expr) {
                    Ok(()) => Ok(()),
                    Err(f) => Err(Failure::Fault(f)),
                }
            },
            Action::Index(span) => self.eval_index(span),
            Action::Range(has_start, has_step, has_end) => {
                match self.eval_range(has_start, has_step, has_end) {
                    Ok(()) => Ok(()),
                    Err(f) => Err(Failure::Fault(f)),
                }
            },
            Action::Return => {
                match self.eval_ret(env) {
                    Ok(()) => Ok(()),
                    Err(f) => Err(Failure::Fault(f)),
                }
            },
            Action::StringConcat(len) => {
                match self.eval_string_concat(len) {
                    Ok(()) => Ok(()),
                    Err(f) => Err(Failure::Fault(f)),
                }
            },
            Action::StringLit(lit) => {
                self.push_val(Value::String(lit));
                Ok(())
            },
            Action::Tuple(len) => {
                match self.eval_tup(len) {
                    Ok(()) => Ok(()),
                    Err(f) => Err(Failure::Fault(f)),
                }
            },
            Action::UnOp(op) => {
                match self.eval_unop(op) {
                    Ok(()) => Ok(()),
                    Err(f) => Err(Failure::Fault(f)),
                }
            },
            Action::UpdateField(field) => {
                match self.eval_update_field(field) {
                    Ok(()) => Ok(()),
                    Err(f) => Err(Failure::Fault(f)),
                }
            },
            Action::UpdateIndex(span) => self.eval_update_index(span),
            Action::UpdateIndexInPlace(lhs, span) => {
                if !(self.package < store.packages.len() && lhs < store.get_package_exprs_len(
                    self.package,
                )) {
                    return Err(Failure::Fault(Fault::MissingNode));
                }
                self.eval_update_index_in_place(env, store, lhs, span)
            },
            Action::While(cond_expr, block) => {
                match self.eval_while(env, store, cond_expr, block) {
                    Ok(()) => Ok(()),
                    Err(f) => Err(Failure::Fault(f)),
                }
            },
        }
    }

    /// Schedules an expression as the next thing to evaluate.
    pub fn push_expr_for_eval(&mut self, expr: ExprId)
        ensures
            final(self).cont_stack@ == old(self).cont_stack@.push(Cont::Expr(expr)),
            final(self).action_stack@ == old(self).action_stack@,
            final(self).vals@ == old(self).vals@,
            final(self).call_stack@ == old(self).call_stack@,
    {
        self.push_expr(expr);
    }

    /// Schedules a statement as the next thing to evaluate.
    pub fn push_stmt_for_eval(&mut self, stmt: StmtId)
        ensures
            final(self).cont_stack@ == old(self).cont_stack@.push(Cont::Stmt(stmt)),
            final(self).action_stack@ == old(self).action_stack@,
            final(self).vals@ == old(self).vals@,
            final(self).call_stack@ == old(self).call_stack@,
    {
        self.push_stmt(stmt);
    }

    /// Pops the program result; `None` when no value remains.
    pub fn get_result(&mut self) -> (r: Option<Value>)
        ensures
            final(self).cont_stack@ == old(self).cont_stack@,
            final(self).action_stack@ == old(self).action_stack@,
            final(self).call_stack@ == old(self).call_stack@,
            old(self).vals@.len() > 0 ==> r == Option::Some(old(self).vals@.last()) && final(self).vals@ == old(self).vals@.drop_last(),
            old(self).vals@.len() == 0 ==> r is None && final(self).vals@ == old(self).vals@,
    {
        self.vals.pop()
    }

    /// Performs one driver step: pops one continuation and dispatches it,
    /// saying exactly what each kind yields. An empty continuation stack
    /// finishes the run with its single value; a statement dispatch
    /// applies the breakpoint and step-mode yield rules.
    fn step_cont<B: crate::host::Backend<R>, R: crate::host::Receiver>(
        &mut self,
        store: &crate::fir::PackageStore,
        env: &mut Env,
        sim: &mut B,
        out: &mut R,
        breakpoints: &Vec<StmtId>,
        step: StepAction,
        current_frame: usize,
    ) -> (r: StepFlow)
        requires
            old(self).wf(),
            store.wf(),
            old(self).balance(*old(env)) >= 1,
        ensures
            r is Advanced || r is Yielded ==> final(self).wf() && final(self).balance(*final(env)) == old(self).balance(*old(env)),
            r matches StepFlow::Failed(_, frames) ==> frames@ == spec_error_frames(
                final(self).call_stack@,
                final(self).current_span,
                final(self).package,
            ) && frames@.len() >= 1 && frames@.last().span == final(self).current_span,
            old(self).cont_stack@.len() == 0 ==> ({
                let v0 = old(self).vals@;
                &&& v0.len() == 1 ==> r == StepFlow::Yielded(StepResult::Return(v0.last()))
                    && final(self).vals@.len() == 0 && final(self).cont_stack@.len() == 0
                &&& v0.len() == 0 ==> r == StepFlow::Faulted(Fault::StackUnderflow)
                &&& v0.len() > 1 ==> r == StepFlow::Faulted(Fault::StackImbalance)
            }),
            old(self).cont_stack@.len() > 0 ==> ({
                let c = old(self).cont_stack@.last();
                match c {
                    Cont::Action => !(r is Yielded),
                    Cont::Expr(e) => !(r is Yielded) && (!store.valid_expr(
                        old(self).package,
                        e,
                    ) ==> r == StepFlow::Faulted(Fault::MissingNode)),
                    Cont::Frame(len) => !(r is Yielded) && (old(self).call_stack@.len() > 0
                        && old(self).vals@.len() > len ==> r is Advanced && final(self).call_stack@ == old(self).call_stack@.drop_last() && final(self).package
                        == old(self).call_stack@.last().caller && final(self).vals@
                        == old(self).vals@.take(len as int).push(old(self).vals@.last())),
                    Cont::Scope => r is Advanced && final(env).0@ == old(env).0@.drop_last()
                        && final(self).cont_stack@ == old(self).cont_stack@.drop_last(),
                    Cont::Stmt(st) => (!store.valid_stmt(old(self).package, st) ==> r
                        == StepFlow::Faulted(Fault::MissingNode)) && (store.valid_stmt(
                        old(self).package,
                        st,
                    ) ==> ({
                        let span = store.spec_stmt(old(self).package, st).span;
                        &&& final(self).call_stack@ == old(self).call_stack@
                        &&& final(self).current_span == span
                        &&& (breakpoints@.contains(st) ==> r == StepFlow::Yielded(
                            StepResult::BreakpointHit(st),
                        ))
                        &&& (!breakpoints@.contains(st) && span.lo == 0 && span.hi == 0 ==> r
                            is Advanced)
                        &&& (!breakpoints@.contains(st) && !(span.lo == 0 && span.hi == 0)
                            ==> match step {
                            StepAction::In => r == StepFlow::Yielded(StepResult::StepIn),
                            StepAction::Next => (current_frame >= final(self).call_stack@.len()
                                ==> r == StepFlow::Yielded(StepResult::Next)) && (current_frame
                                < final(self).call_stack@.len() ==> r is Advanced),
                            StepAction::Out => (current_frame > final(self).call_stack@.len()
                                ==> r == StepFlow::Yielded(StepResult::StepOut)) && (
                            current_frame <= final(self).call_stack@.len() ==> r is Advanced),
                            StepAction::Continue => r is Advanced,
                        })
                    })),
                }
            }),
    {
        let ghost cs = self.cont_stack@;
        let cont = match self.pop_cont() {
            Option::Some(c) => c,
            Option::None => {
                let v = match self.get_result() {
                    Option::Some(v) => v,
                    Option::None => {
                        return StepFlow::Faulted(Fault::StackUnderflow);
                    },
                };
                if self.vals.len() > 0 {
                    return StepFlow::Faulted(Fault::StackImbalance);
                }
                return StepFlow::Yielded(StepResult::Return(v));
            },
        };
        match cont {
            Cont::Action => {
                proof {
                    assert(count_action(cs) >= 1);
                }
                let action = match self.action_stack.pop() {
                    Option::Some(a) => a,
                    Option::None => {
                        return StepFlow::Faulted(Fault::StackUnderflow);
                    },
                };
                match self.cont_action(env, sim, store, action, out) {
                    Ok(()) => StepFlow::Advanced,
                    Err(Failure::Program(e)) => {
                        let frames = self.error_frames();
                        StepFlow::Failed(e, frames)
                    },
                    Err(Failure::Fault(f)) => StepFlow::Faulted(f),
                }
            },
            Cont::Expr(expr) => {
                if !(self.package < store.packages.len() && expr < store.get_package_exprs_len(
                    self.package,
                )) {
                    return StepFlow::Faulted(Fault::MissingNode);
                }
                match self.cont_expr(env, store, expr) {
                    Ok(()) => StepFlow::Advanced,
                    Err(Failure::Program(e)) => {
                        let frames = self.error_frames();
                        StepFlow::Failed(e, frames)
                    },
                    Err(Failure::Fault(f)) => StepFlow::Faulted(f),
                }
            },
            Cont::Frame(len) => {
                match self.leave_frame(len) {
                    Ok(()) => StepFlow::Advanced,
                    Err(f) => StepFlow::Faulted(f),
                }
            },
            Cont::Scope => {
                if !env.leave_scope() {
                    return StepFlow::Faulted(Fault::MissingScope);
                }
                StepFlow::Advanced
            },
            Cont::Stmt(stmt) => {
                if !(self.package < store.packages.len() && stmt < store.get_package_stmts_len(
                    self.package,
                )) {
                    return StepFlow::Faulted(Fault::MissingNode);
                }
                self.cont_stmt(store, stmt);
                if contains_stmt(breakpoints, stmt) {
                    return StepFlow::Yielded(StepResult::BreakpointHit(stmt));
                }
                let span = self.current_span;
                if span.lo == 0 && span.hi == 0 {
                    // generated code has no span and is stepped through
                    return StepFlow::Advanced;
                }
                match step {
                    StepAction::In => StepFlow::Yielded(StepResult::StepIn),
                    StepAction::Next => {
                        if current_frame >= self.call_stack.len() {
                            StepFlow::Yielded(StepResult::Next)
                        } else {
                            StepFlow::Advanced
                        }
                    },
                    StepAction::Out => {
                        if current_frame > self.call_stack.len() {
                            StepFlow::Yielded(StepResult::StepOut)
                        } else {
                            StepFlow::Advanced
                        }
                    },
                    StepAction::Continue => StepFlow::Advanced,
                }
            },
        }
    }

    /// Steps the engine until it yields, fails, finishes, or exhausts the
    /// step budget. A finished run returns the single remaining value with
    /// the value stack empty and every entered scope left, so the
    /// environment is exactly as deep as when the run began; an already
    /// finished engine returns its value on the first step.
    pub fn eval<B: crate::host::Backend<R>, R: crate::host::Receiver>(
        &mut self,
        store: &crate::fir::PackageStore,
        env: &mut Env,
        sim: &mut B,
        out: &mut R,
        breakpoints: &Vec<StmtId>,
        step: StepAction,
        max_steps: u64,
    ) -> (r: Result<StepResult, EvalError>)
        requires
            old(self).wf(),
            store.wf(),
            old(self).balance(*old(env)) >= 1,
        ensures
            match r {
                Ok(sr) => final(self).wf() && final(self).balance(*final(env)) == old(self).balance(*old(env)) && (sr matches StepResult::Return(_) ==> final(self).vals@.len() == 0 && final(self).cont_stack@.len() == 0 && final(env).depth() == old(self).balance(*old(env))),
                Err(e) => (e matches EvalError::OutOfSteps ==> final(self).wf() && final(self).balance(*final(env)) == old(self).balance(*old(env))) && (e matches EvalError::Program(_, frames) ==> frames@ == spec_error_frames(final(self).call_stack@, final(self).current_span, final(self).package) && frames@.len() >= 1 && frames@.last().span == final(self).current_span),
            },
            max_steps > 0 && old(self).cont_stack@.len() == 0 ==> ({
                let v0 = old(self).vals@;
                &&& v0.len() == 1 ==> r == Result::<StepResult, EvalError>::Ok(
                    StepResult::Return(v0.last()),
                )
                &&& v0.len() == 0 ==> r == Result::<StepResult, EvalError>::Err(
                    EvalError::Fault(Fault::StackUnderflow),
                )
                &&& v0.len() > 1 ==> r == Result::<StepResult, EvalError>::Err(
                    EvalError::Fault(Fault::StackImbalance),
                )
            }),
            max_steps > 0 && old(self).cont_stack@.len() > 0 ==> (old(self).cont_stack@.last()
                matches Cont::Stmt(st) ==> ({
                let valid = store.valid_stmt(old(self).package, st);
                let span = store.spec_stmt(old(self).package, st).span;
                &&& valid && breakpoints@.contains(st) ==> r == Result::<
                    StepResult,
                    EvalError,
                >::Ok(StepResult::BreakpointHit(st))
                &&& valid && !breakpoints@.contains(st) && !(span.lo == 0 && span.hi == 0)
                    && step == StepAction::In ==> r == Result::<StepResult, EvalError>::Ok(
                    StepResult::StepIn,
                )
                &&& valid && !breakpoints@.contains(st) && !(span.lo == 0 && span.hi == 0)
                    && step == StepAction::Next ==> r == Result::<StepResult, EvalError>::Ok(
                    StepResult::Next,
                )
            })),
    {
        let current_frame = self.call_stack.len();
        if max_steps == 0 {
            return Err(EvalError::OutOfSteps);
        }
        match self.step_cont(store, env, sim, out, breakpoints, step, current_frame) {
            StepFlow::Advanced => {},
            StepFlow::Yielded(sr) => {
                return Ok(sr);
            },
            StepFlow::Failed(e, frames) => {
                return Err(EvalError::Program(e, frames));
            },
            StepFlow::Faulted(f) => {
                return Err(EvalError::Fault(f));
            },
        }
        let mut steps: u64 = max_steps - 1;
        loop
            invariant
                self.wf(),
                store.wf(),
                self.balance(*env) == old(self).balance(*old(env)),
                self.balance(*env) >= 1,
                old(self).cont_stack@.len() > 0,
                old(self).cont_stack@.last() matches Cont::Stmt(st) ==> ({
                    let valid = store.valid_stmt(old(self).package, st);
                    let span = store.spec_stmt(old(self).package, st).span;
                    &&& !(valid && breakpoints@.contains(st))
                    &&& !(valid && !breakpoints@.contains(st) && !(span.lo == 0 && span.hi == 0)
                        && (step == StepAction::In || step == StepAction::Next))
                }),
            decreases steps,
        {
            if steps == 0 {
                return Err(EvalError::OutOfSteps);
            }
            steps = steps - 1;
            match self.step_cont(store, env, sim, out, breakpoints, step, current_frame) {
                StepFlow::Advanced => {},
                StepFlow::Yielded(sr) => {
                    return Ok(sr);
                },
                StepFlow::Failed(e, frames) => {
                    return Err(EvalError::Program(e, frames));
                },
                StepFlow::Faulted(f) => {
                    return Err(EvalError::Fault(f));
                },
            }
        }
    }

}

/// The words an intrinsic failure renders to, attached at the right span:
/// an unknown or failed intrinsic reports at the callee, qubit and output
/// conditions report at the argument.
/// Checks an intrinsic's returned value against the callable's declared
/// output type: a unit result against a non-unit declaration is refused as
/// `UnsupportedIntrinsicType`, carrying the callable's name and span;
/// every other value passes through unchanged.
pub fn check_intrinsic_return(val: Value, output: &crate::fir::Ty, name: &String, callee_span:
    PackageSpan) -> (r: Result<Value, Failure>)
    ensures
        val@ is Unit && !(*output is Unit) ==> (r matches Result::Err(f) && f
            matches Failure::Program(e) && e matches Error::UnsupportedIntrinsicType(nm, sp)
            && nm@ == name@ && sp == callee_span),
        !(val@ is Unit && !(*output is Unit)) ==> (r matches Result::Ok(v) && v == val),
{
    let is_unit = matches!(val, Value::Unit);
    if is_unit && !matches!(*output, crate::fir::Ty::Unit) {
        let nm = clone_string(name);
        Err(Failure::Program(Error::UnsupportedIntrinsicType(nm, callee_span)))
    } else {
        Ok(val)
    }
}

fn intrinsic_error(name: &String, fault: crate::host::IntrinsicFault, callee_span: PackageSpan,
    arg_span: PackageSpan) -> (r: Error)
    ensures
        match fault {
            crate::host::IntrinsicFault::Unknown => r matches Error::UnknownIntrinsic(n, s) && n@
                == name@ && s == callee_span,
            crate::host::IntrinsicFault::Failed(msg) => r matches Error::IntrinsicFail(
                n,
                m,
                s,
            ) && n@ == name@ && m == msg && s == callee_span,
            crate::host::IntrinsicFault::Output => r == Error::OutputFail(arg_span),
            crate::host::IntrinsicFault::QubitUniqueness => r == Error::QubitUniqueness(arg_span),
            crate::host::IntrinsicFault::QubitsNotSeparable => r == Error::QubitsNotSeparable(
                arg_span,
            ),
            crate::host::IntrinsicFault::ReleasedQubitNotZero(q) => r
                == Error::ReleasedQubitNotZero(q, arg_span),
            crate::host::IntrinsicFault::InvalidRotationAngle(bits) => r
                == Error::InvalidRotationAngle(bits, arg_span),
        },
{
    match fault {
        crate::host::IntrinsicFault::Unknown => Error::UnknownIntrinsic(
            clone_string(name),
            callee_span,
        ),
        crate::host::IntrinsicFault::Failed(msg) => Error::IntrinsicFail(
            clone_string(name),
            msg,
            callee_span,
        ),
        crate::host::IntrinsicFault::Output => Error::OutputFail(arg_span),
        crate::host::IntrinsicFault::QubitUniqueness => Error::QubitUniqueness(arg_span),
        crate::host::IntrinsicFault::QubitsNotSeparable => Error::QubitsNotSeparable(arg_span),
        crate::host::IntrinsicFault::ReleasedQubitNotZero(q) => Error::ReleasedQubitNotZero(
            q,
            arg_span,
        ),
        crate::host::IntrinsicFault::InvalidRotationAngle(bits) => Error::InvalidRotationAngle(
            bits,
            arg_span,
        ),
    }
}

/// Copies a string.
fn clone_string(s: &String) -> (r: String)
    ensures
        r@ == s@,
{
    s.clone()
}

/// Schedules an expression onto a state from outside the engine.
pub fn eval_push_expr(state: &mut State, expr: ExprId)
    ensures
        final(state).cont_stack@ == old(state).cont_stack@.push(Cont::Expr(expr)),
{
    state.push_expr_for_eval(expr);
}

/// Evaluates one node to completion: drives a fresh state until the run
/// returns, fails, or exhausts the step budget. A returned value leaves
/// the environment exactly as deep as it was.
pub fn eval<B: crate::host::Backend<R>, R: crate::host::Receiver>(
    package: PackageId,
    seed: Option<u64>,
    id: EvalId,
    globals: &crate::fir::PackageStore,
    env: &mut Env,
    sim: &mut B,
    receiver: &mut R,
    max_steps: u64,
) -> (r: Result<Value, EvalError>)
    requires
        globals.wf(),
        old(env).depth() >= 1,
    ensures
        r is Ok ==> final(env).depth() == old(env).depth(),
{
    let mut state = State::new(package, seed);
    match id {
        EvalId::Expr(expr) => state.push_expr_for_eval(expr),
        EvalId::Stmt(stmt) => state.push_stmt_for_eval(stmt),
    }
    proof {
        assert(state.cont_stack@.len() == 1);
        assert(count_scope(state.cont_stack@.drop_last()) == 0);
        assert(count_action(state.cont_stack@.drop_last()) == 0);
        assert(count_frame(state.cont_stack@.drop_last()) == 0);
    }
    let res = match state.eval(
        globals,
        env,
        sim,
        receiver,
        &Vec::new(),
        StepAction::Continue,
        max_steps,
    ) {
        Ok(sr) => sr,
        Err(e) => {
            return Err(e);
        },
    };
    match res {
        StepResult::Return(value) => Ok(value),
        _ => Err(EvalError::Fault(Fault::StackImbalance)),
    }
}

} // verus!
