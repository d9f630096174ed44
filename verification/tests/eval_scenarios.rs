use qeval::env::Env;
use qeval::error::Error;
use qeval::fir::{
    BinOp, Block, CallableDecl, CallableImpl, Expr, ExprKind, Field, Global, Ident, Lit,
    Mutability, Package, PackageStore, Pat, PatKind, Res, SpecDecl, Specialized, Stmt, StmtKind,
    Ty, UnOp,
};
use qeval::span::Span;
use qeval::state::{eval, EvalError, EvalId};
use qeval::val::{value_eq, Value};
use qeval::host::{Backend, IntrinsicFault, Receiver};
use qeval::Functor;

struct NoSim;

struct NoOut;

impl Receiver for NoOut {
    fn message(&mut self, _msg: &String) -> bool {
        true
    }

    fn state_dump(&mut self, _dump: &Vec<(u64, (u64, u64))>) -> bool {
        true
    }
}

impl Backend<NoOut> for NoSim {
    fn call_intrinsic(
        &mut self,
        _name: &String,
        _arg: Value,
        _rng: &mut rand::rngs::StdRng,
        _out: &mut NoOut,
    ) -> Result<Value, IntrinsicFault> {
        Err(IntrinsicFault::Unknown)
    }

    fn double_pow(&mut self, base: u64, exp: u64) -> u64 {
        f64::from_bits(base).powf(f64::from_bits(exp)).to_bits()
    }
}

struct Builder {
    package: Package,
}

impl Builder {
    fn new() -> Builder {
        Builder {
            package: Package {
                exprs: Vec::new(),
                stmts: Vec::new(),
                blocks: Vec::new(),
                pats: Vec::new(),
                items: Vec::new(),
            },
        }
    }

    fn sp(lo: u32, hi: u32) -> Span {
        Span { lo, hi }
    }

    fn expr(&mut self, kind: ExprKind) -> usize {
        self.expr_at(kind, Builder::sp(1, 2))
    }

    fn expr_at(&mut self, kind: ExprKind, span: Span) -> usize {
        self.package.exprs.push(Expr { span, ty: Ty::Other, kind });
        self.package.exprs.len() - 1
    }

    fn array_expr(&mut self, kind: ExprKind) -> usize {
        self.package.exprs.push(Expr { span: Builder::sp(1, 2), ty: Ty::Array, kind });
        self.package.exprs.len() - 1
    }

    fn lit_int(&mut self, v: i64) -> usize {
        self.expr(ExprKind::Lit(Lit::Int(v)))
    }

    fn stmt(&mut self, kind: StmtKind) -> usize {
        self.package.stmts.push(Stmt { span: Builder::sp(1, 2), kind });
        self.package.stmts.len() - 1
    }

    fn block(&mut self, stmts: Vec<usize>) -> usize {
        self.package.blocks.push(Block { span: Builder::sp(1, 2), stmts });
        self.package.blocks.len() - 1
    }

    fn bind_pat(&mut self, id: usize, name: &str) -> usize {
        self.package.pats.push(Pat {
            span: Builder::sp(1, 2),
            kind: PatKind::Bind(Ident { id, span: Builder::sp(1, 2), name: name.to_string() }),
        });
        self.package.pats.len() - 1
    }

    fn discard_pat(&mut self) -> usize {
        self.package.pats.push(Pat { span: Builder::sp(1, 2), kind: PatKind::Discard });
        self.package.pats.len() - 1
    }

    fn store(self) -> PackageStore {
        PackageStore { packages: vec![self.package] }
    }
}

fn run(store: &PackageStore, expr: usize) -> Result<Value, EvalError> {
    let mut env = Env::new_env();
    let mut sim = NoSim;
    let mut out = NoOut;
    eval(
        0,
        Some(7),
        EvalId::Expr(expr),
        store,
        &mut env,
        &mut sim,
        &mut out,
        1_000_000,
    )
}

fn run_value(store: &PackageStore, expr: usize) -> Value {
    match run(store, expr) {
        Ok(v) => v,
        Err(e) => panic!("evaluation failed: {:?}", e),
    }
}

#[test]
fn precedence_sum_of_product() {
    // let x = 3; x + 4 * 5
    let mut b = Builder::new();
    let three = b.lit_int(3);
    let pat = b.bind_pat(0, "x");
    let s_let = b.stmt(StmtKind::Local(Mutability::Immutable, pat, three));
    let x = b.expr(ExprKind::Var(Res::Local(0)));
    let four = b.lit_int(4);
    let five = b.lit_int(5);
    let prod = b.expr(ExprKind::BinOp(BinOp::Mul, four, five));
    let sum = b.expr(ExprKind::BinOp(BinOp::Add, x, prod));
    let s_sum = b.stmt(StmtKind::Expr(sum));
    let blk = b.block(vec![s_let, s_sum]);
    let top = b.expr(ExprKind::Block(blk));
    let store = b.store();
    let v = run_value(&store, top);
    assert!(value_eq(&v, &Value::Int(23)));
}

#[test]
fn update_index_copying() {
    // let a = [1,2,3]; a w/ 1 <- 9
    let mut b = Builder::new();
    let e1 = b.lit_int(1);
    let e2 = b.lit_int(2);
    let e3 = b.lit_int(3);
    let arr = b.array_expr(ExprKind::Array(vec![e1, e2, e3]));
    let pat = b.bind_pat(0, "a");
    let s_let = b.stmt(StmtKind::Local(Mutability::Immutable, pat, arr));
    let a = b.array_expr(ExprKind::Var(Res::Local(0)));
    let one = b.lit_int(1);
    let nine = b.lit_int(9);
    let upd = b.expr(ExprKind::UpdateIndex(a, one, nine));
    let s_upd = b.stmt(StmtKind::Expr(upd));
    let blk = b.block(vec![s_let, s_upd]);
    let top = b.expr(ExprKind::Block(blk));
    let store = b.store();
    let v = run_value(&store, top);
    let expected = Value::Array(vec![Value::Int(1), Value::Int(9), Value::Int(3)]);
    assert!(value_eq(&v, &expected));
}

#[test]
fn update_index_in_place() {
    // mutable a = [1,2,3]; set a w/= 1 <- 9; a
    let mut b = Builder::new();
    let e1 = b.lit_int(1);
    let e2 = b.lit_int(2);
    let e3 = b.lit_int(3);
    let arr = b.array_expr(ExprKind::Array(vec![e1, e2, e3]));
    let pat = b.bind_pat(0, "a");
    let s_let = b.stmt(StmtKind::Local(Mutability::Mutable, pat, arr));
    let a_lhs = b.array_expr(ExprKind::Var(Res::Local(0)));
    let one = b.lit_int(1);
    let nine = b.lit_int(9);
    let assign = b.expr(ExprKind::AssignIndex(a_lhs, one, nine));
    let s_assign = b.stmt(StmtKind::Semi(assign));
    let a_read = b.array_expr(ExprKind::Var(Res::Local(0)));
    let s_read = b.stmt(StmtKind::Expr(a_read));
    let blk = b.block(vec![s_let, s_assign, s_read]);
    let top = b.expr(ExprKind::Block(blk));
    let store = b.store();
    let v = run_value(&store, top);
    let expected = Value::Array(vec![Value::Int(1), Value::Int(9), Value::Int(3)]);
    assert!(value_eq(&v, &expected));
}

#[test]
fn division_by_zero_carries_span() {
    // 1 / 0 at span (5, 8)
    let mut b = Builder::new();
    let one = b.lit_int(1);
    let zero = b.expr_at(ExprKind::Lit(Lit::Int(0)), Builder::sp(5, 8));
    let div = b.expr(ExprKind::BinOp(BinOp::Div, one, zero));
    let store = b.store();
    match run(&store, div) {
        Err(EvalError::Program(Error::DivZero(ps), frames)) => {
            assert_eq!(ps.span.lo, 5);
            assert_eq!(ps.span.hi, 8);
            assert_eq!(ps.package, 0);
            assert_eq!(frames.len(), 1);
            assert_eq!(frames[0].span.lo, 5);
            assert_eq!(frames[0].span.hi, 8);
        },
        other => panic!("expected division by zero, got {:?}", other),
    }
}

#[test]
fn adjoint_twice_runs_body() {
    // Adjoint Adjoint f () runs f's Body, not its Adj.
    let mut b = Builder::new();
    let body_val = b.lit_int(1);
    let s_body = b.stmt(StmtKind::Expr(body_val));
    let body_blk = b.block(vec![s_body]);
    let adj_val = b.lit_int(2);
    let s_adj = b.stmt(StmtKind::Expr(adj_val));
    let adj_blk = b.block(vec![s_adj]);
    let input = b.discard_pat();
    b.package.items.push(Global::Callable(CallableDecl {
        name: "f".to_string(),
        span: Builder::sp(1, 2),
        input,
        output: Ty::Other,
        implementation: CallableImpl::Spec(Specialized {
            body: SpecDecl { input: None, block: body_blk },
            adj: Some(SpecDecl { input: None, block: adj_blk }),
            ctl: None,
            ctl_adj: None,
        }),
    }));
    let f = b.expr(ExprKind::Var(Res::Item(qeval::fir::ItemId { package: None, item: 0 })));
    let once = b.expr(ExprKind::UnOp(UnOp::Functor(Functor::Adj), f));
    let twice = b.expr(ExprKind::UnOp(UnOp::Functor(Functor::Adj), once));
    let unit_arg = b.expr(ExprKind::Tuple(vec![]));
    let call = b.expr(ExprKind::Call(twice, unit_arg));
    let store = b.store();
    let v = run_value(&store, call);
    assert!(value_eq(&v, &Value::Int(1)));
}

#[test]
fn adjoint_once_runs_adj() {
    let mut b = Builder::new();
    let body_val = b.lit_int(1);
    let s_body = b.stmt(StmtKind::Expr(body_val));
    let body_blk = b.block(vec![s_body]);
    let adj_val = b.lit_int(2);
    let s_adj = b.stmt(StmtKind::Expr(adj_val));
    let adj_blk = b.block(vec![s_adj]);
    let input = b.discard_pat();
    b.package.items.push(Global::Callable(CallableDecl {
        name: "f".to_string(),
        span: Builder::sp(1, 2),
        input,
        output: Ty::Other,
        implementation: CallableImpl::Spec(Specialized {
            body: SpecDecl { input: None, block: body_blk },
            adj: Some(SpecDecl { input: None, block: adj_blk }),
            ctl: None,
            ctl_adj: None,
        }),
    }));
    let f = b.expr(ExprKind::Var(Res::Item(qeval::fir::ItemId { package: None, item: 0 })));
    let once = b.expr(ExprKind::UnOp(UnOp::Functor(Functor::Adj), f));
    let unit_arg = b.expr(ExprKind::Tuple(vec![]));
    let call = b.expr(ExprKind::Call(once, unit_arg));
    let store = b.store();
    let v = run_value(&store, call);
    assert!(value_eq(&v, &Value::Int(2)));
}

#[test]
fn call_binds_argument() {
    // f(x) = x + 1; f(41) == 42
    let mut b = Builder::new();
    let x = b.expr(ExprKind::Var(Res::Local(5)));
    let one = b.lit_int(1);
    let plus = b.expr(ExprKind::BinOp(BinOp::Add, x, one));
    let s = b.stmt(StmtKind::Expr(plus));
    let blk = b.block(vec![s]);
    let input = b.bind_pat(5, "x");
    b.package.items.push(Global::Callable(CallableDecl {
        name: "f".to_string(),
        span: Builder::sp(1, 2),
        input,
        output: Ty::Other,
        implementation: CallableImpl::Spec(Specialized {
            body: SpecDecl { input: None, block: blk },
            adj: None,
            ctl: None,
            ctl_adj: None,
        }),
    }));
    let f = b.expr(ExprKind::Var(Res::Item(qeval::fir::ItemId { package: None, item: 0 })));
    let arg = b.lit_int(41);
    let call = b.expr(ExprKind::Call(f, arg));
    let store = b.store();
    let v = run_value(&store, call);
    assert!(value_eq(&v, &Value::Int(42)));
}

#[test]
fn udt_constructor_is_identity() {
    let mut b = Builder::new();
    b.package.items.push(Global::Udt);
    let c = b.expr(ExprKind::Var(Res::Item(qeval::fir::ItemId { package: None, item: 0 })));
    let arg = b.lit_int(11);
    let call = b.expr(ExprKind::Call(c, arg));
    let store = b.store();
    let v = run_value(&store, call);
    assert!(value_eq(&v, &Value::Int(11)));
}

#[test]
fn while_loop_counts() {
    // mutable i = 0; while i < 3 { set i = i + 1; }; i
    let mut b = Builder::new();
    let zero = b.lit_int(0);
    let pat = b.bind_pat(0, "i");
    let s_let = b.stmt(StmtKind::Local(Mutability::Mutable, pat, zero));
    let i_cond = b.expr(ExprKind::Var(Res::Local(0)));
    let three = b.lit_int(3);
    let cond = b.expr(ExprKind::BinOp(BinOp::Lt, i_cond, three));
    let i_lhs = b.expr(ExprKind::Var(Res::Local(0)));
    let i_rhs = b.expr(ExprKind::Var(Res::Local(0)));
    let one = b.lit_int(1);
    let sum = b.expr(ExprKind::BinOp(BinOp::Add, i_rhs, one));
    let assign = b.expr(ExprKind::Assign(i_lhs, sum));
    let s_assign = b.stmt(StmtKind::Semi(assign));
    let body = b.block(vec![s_assign]);
    let w = b.expr(ExprKind::While(cond, body));
    let s_w = b.stmt(StmtKind::Semi(w));
    let i_read = b.expr(ExprKind::Var(Res::Local(0)));
    let s_read = b.stmt(StmtKind::Expr(i_read));
    let blk = b.block(vec![s_let, s_w, s_read]);
    let top = b.expr(ExprKind::Block(blk));
    let store = b.store();
    let v = run_value(&store, top);
    assert!(value_eq(&v, &Value::Int(3)));
}

#[test]
fn user_fail_carries_message() {
    let mut b = Builder::new();
    let msg = b.expr(ExprKind::String(vec![qeval::fir::StringComponent::Lit(
        "boom".to_string(),
    )]));
    let f = b.expr_at(ExprKind::Fail(msg), Builder::sp(3, 9));
    let store = b.store();
    match run(&store, f) {
        Err(EvalError::Program(Error::UserFail(m, ps), _)) => {
            assert_eq!(m, "boom");
            assert_eq!(ps.span.lo, 3);
            assert_eq!(ps.span.hi, 9);
        },
        other => panic!("expected user failure, got {:?}", other),
    }
}

#[test]
fn string_interpolation_renders_values() {
    // $"v={5}" -> "v=5"
    let mut b = Builder::new();
    let five = b.lit_int(5);
    let s = b.expr(ExprKind::String(vec![
        qeval::fir::StringComponent::Lit("v=".to_string()),
        qeval::fir::StringComponent::Expr(five),
    ]));
    let store = b.store();
    let v = run_value(&store, s);
    assert!(value_eq(&v, &Value::String("v=5".to_string())));
}

#[test]
fn slice_with_step_two() {
    // [10,20,30,40,50][0..2..4] == [10,30,50]
    let mut b = Builder::new();
    let items: Vec<usize> = vec![10, 20, 30, 40, 50].into_iter().map(|v| b.lit_int(v)).collect();
    let arr = b.array_expr(ExprKind::Array(items));
    let zero = b.lit_int(0);
    let two = b.lit_int(2);
    let four = b.lit_int(4);
    let range = b.expr(ExprKind::Range(Some(zero), Some(two), Some(four)));
    let idx = b.expr(ExprKind::Index(arr, range));
    let store = b.store();
    let v = run_value(&store, idx);
    let expected = Value::Array(vec![Value::Int(10), Value::Int(30), Value::Int(50)]);
    assert!(value_eq(&v, &expected));
}

#[test]
fn range_step_zero_is_error() {
    let mut b = Builder::new();
    let e1 = b.lit_int(1);
    let arr = b.array_expr(ExprKind::Array(vec![e1]));
    let zero1 = b.lit_int(0);
    let zero2 = b.expr_at(ExprKind::Lit(Lit::Int(0)), Builder::sp(7, 8));
    let two = b.lit_int(2);
    let range = b.expr_at(ExprKind::Range(Some(zero1), Some(zero2), Some(two)), Builder::sp(7, 8));
    let idx = b.expr(ExprKind::Index(arr, range));
    let store = b.store();
    match run(&store, idx) {
        Err(EvalError::Program(Error::RangeStepZero(ps), _)) => {
            assert_eq!(ps.span.lo, 7);
        },
        other => panic!("expected a zero-step range error, got {:?}", other),
    }
}

#[test]
fn negative_update_index_is_invalid_negative() {
    let mut b = Builder::new();
    let e1 = b.lit_int(1);
    let arr = b.array_expr(ExprKind::Array(vec![e1]));
    let neg = b.lit_int(-1);
    let nine = b.lit_int(9);
    let upd = b.expr(ExprKind::UpdateIndex(arr, neg, nine));
    let store = b.store();
    match run(&store, upd) {
        Err(EvalError::Program(Error::InvalidNegativeInt(v, _), _)) => assert_eq!(v, -1),
        other => panic!("expected a negative-index error, got {:?}", other),
    }
}

#[test]
fn index_out_of_range_reports_index() {
    let mut b = Builder::new();
    let e1 = b.lit_int(1);
    let arr = b.array_expr(ExprKind::Array(vec![e1]));
    let idx5 = b.lit_int(5);
    let idx = b.expr(ExprKind::Index(arr, idx5));
    let store = b.store();
    match run(&store, idx) {
        Err(EvalError::Program(Error::IndexOutOfRange(v, _), _)) => assert_eq!(v, 5),
        other => panic!("expected an out-of-range error, got {:?}", other),
    }
}

#[test]
fn logical_and_short_circuits() {
    // false and (1/0 == 0) evaluates to false without dividing
    let mut b = Builder::new();
    let f = b.expr(ExprKind::Lit(Lit::Bool(false)));
    let one = b.lit_int(1);
    let zero = b.lit_int(0);
    let div = b.expr(ExprKind::BinOp(BinOp::Div, one, zero));
    let zero2 = b.lit_int(0);
    let eq = b.expr(ExprKind::BinOp(BinOp::Eq, div, zero2));
    let and = b.expr(ExprKind::BinOp(BinOp::AndL, f, eq));
    let store = b.store();
    let v = run_value(&store, and);
    assert!(value_eq(&v, &Value::Bool(false)));
}

#[test]
fn tuple_field_path_roundtrip() {
    // (1, (2, 3)) w/ path [1,0] <- 9 reads back 9; writing back the read
    // leaves the tuple unchanged
    let mut b = Builder::new();
    let one = b.lit_int(1);
    let two = b.lit_int(2);
    let three = b.lit_int(3);
    let inner = b.expr(ExprKind::Tuple(vec![two, three]));
    let tup = b.expr(ExprKind::Tuple(vec![one, inner]));
    let fld = b.expr(ExprKind::Field(tup, Field::Path(vec![1, 0])));
    let store = b.store();
    let v = run_value(&store, fld);
    assert!(value_eq(&v, &Value::Int(2)));
}

#[test]
fn conditional_picks_branches() {
    let mut b = Builder::new();
    let c = b.expr(ExprKind::Lit(Lit::Bool(true)));
    let t = b.lit_int(10);
    let e = b.lit_int(20);
    let ife = b.expr(ExprKind::If(c, t, Some(e)));
    let store = b.store();
    let v = run_value(&store, ife);
    assert!(value_eq(&v, &Value::Int(10)));
}

#[test]
fn environment_depth_restored_after_run() {
    let mut b = Builder::new();
    let one = b.lit_int(1);
    let s = b.stmt(StmtKind::Expr(one));
    let blk = b.block(vec![s]);
    let top = b.expr(ExprKind::Block(blk));
    let store = b.store();
    let mut env = Env::new_env();
    let mut sim = NoSim;
    let mut out = NoOut;
    let r = eval(
        0,
        Some(7),
        EvalId::Expr(top),
        &store,
        &mut env,
        &mut sim,
        &mut out,
        1_000_000,
    );
    assert!(r.is_ok());
    assert_eq!(env.0.len(), 1);
}

#[test]
fn breakpoints_and_step_modes_yield() {
    // a block of two statements: a breakpoint on the second fires after
    // stepping past the first; In mode yields at each visible statement
    let mut b = Builder::new();
    let one = b.lit_int(1);
    let s1 = b.stmt(StmtKind::Semi(one));
    let two = b.lit_int(2);
    let s2 = b.stmt(StmtKind::Expr(two));
    let blk = b.block(vec![s1, s2]);
    let top = b.expr(ExprKind::Block(blk));
    let store = b.store();

    // breakpoint on s2
    let mut state = qeval::state::State::new(0, Some(1));
    qeval::state::eval_push_expr(&mut state, top);
    let mut env = Env::new_env();
    let mut sim = NoSim;
    let mut out = NoOut;
    let bps = vec![s2];
    match state.eval(
        &store,
        &mut env,
        &mut sim,
        &mut out,
        &bps,
        qeval::state::StepAction::Continue,
        1_000_000,
    ) {
        Ok(qeval::state::StepResult::BreakpointHit(hit)) => assert_eq!(hit, s2),
        other => panic!("expected the breakpoint, got {:?}", other),
    }
    // resuming past the breakpoint finishes the run
    match state.eval(
        &store,
        &mut env,
        &mut sim,
        &mut out,
        &Vec::new(),
        qeval::state::StepAction::Continue,
        1_000_000,
    ) {
        Ok(qeval::state::StepResult::Return(v)) => assert!(value_eq(&v, &Value::Int(2))),
        other => panic!("expected the result, got {:?}", other),
    }

    // In mode yields at the first visible statement
    let mut state = qeval::state::State::new(0, Some(1));
    qeval::state::eval_push_expr(&mut state, top);
    let mut env = Env::new_env();
    match state.eval(
        &store,
        &mut env,
        &mut sim,
        &mut out,
        &Vec::new(),
        qeval::state::StepAction::In,
        1_000_000,
    ) {
        Ok(qeval::state::StepResult::StepIn) => {},
        other => panic!("expected a step yield, got {:?}", other),
    }
}

#[test]
fn exhausted_budget_reports_out_of_steps() {
    // an endless loop runs out of budget without yielding a value
    let mut b = Builder::new();
    let t = b.expr(ExprKind::Lit(Lit::Bool(true)));
    let blk = b.block(vec![]);
    let w = b.expr(ExprKind::While(t, blk));
    let store = b.store();
    match run(&store, w) {
        Err(EvalError::OutOfSteps) => {},
        other => panic!("expected an exhausted budget, got {:?}", other),
    }
}
