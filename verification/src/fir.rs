//! The lowered intermediate representation that the evaluator executes.
//!
//! Nodes are stored per package and referenced by dense indices; a
//! [`PackageStore`] holds every package and resolves `(package, node)` pairs.
//! Well-formedness of a store — every index that a node mentions is in
//! bounds — is captured by [`PackageStore::wf`] and is what the evaluator
//! requires of its input.

use vstd::prelude::*;
use crate::span::Span;
use crate::val::Pauli;

verus! {

pub type PackageId = usize;

pub type ExprId = usize;

pub type StmtId = usize;

pub type BlockId = usize;

pub type PatId = usize;

pub type LocalVarId = usize;

pub type LocalItemId = usize;

/// A global item addressed across the whole store.
#[derive(Clone, Copy, Debug, PartialEq, Eq, Structural)]
pub struct StoreItemId {
    pub package: PackageId,
    pub item: LocalItemId,
}

/// An item reference that may point into another package; `package == None`
/// means the package of the referring node.
#[derive(Clone, Copy, Debug, PartialEq, Eq, Structural)]
pub struct ItemId {
    pub package: Option<PackageId>,
    pub item: LocalItemId,
}

/// What a variable expression resolved to.
#[derive(Clone, Copy, Debug, PartialEq, Eq, Structural)]
pub enum Res {
    /// Resolution failed during compilation; evaluating it is a compiler bug.
    Invalid,
    /// A global item.
    Item(ItemId),
    /// A local variable.
    Local(LocalVarId),
}

#[derive(Clone, Copy, Debug, PartialEq, Eq, Structural)]
pub enum Mutability {
    Immutable,
    Mutable,
}

/// The little of a node's type that evaluation reads: whether it is `Unit`
/// (intrinsic return checking) or an array (in-place append detection).
#[derive(Clone, Copy, Debug, PartialEq, Eq, Structural)]
pub enum Ty {
    Unit,
    Array,
    Other,
}

#[derive(Clone, Copy, Debug, PartialEq, Eq, Structural)]
pub enum BinOp {
    Add,
    AndB,
    AndL,
    Div,
    Eq,
    Exp,
    Gt,
    Gte,
    Lt,
    Lte,
    Mod,
    Mul,
    Neq,
    OrB,
    OrL,
    Shl,
    Shr,
    Sub,
    XorB,
}

#[derive(Clone, Copy, Debug, PartialEq, Eq, Structural)]
pub enum UnOp {
    Functor(crate::Functor),
    Neg,
    NotB,
    NotL,
    Pos,
    Unwrap,
}

/// A field access: a primitive range field, or a path of tuple positions
/// recorded at compile time.
#[derive(Clone, Debug)]
pub enum Field {
    Prim(PrimField),
    Path(Vec<usize>),
}

#[derive(Clone, Copy, Debug, PartialEq, Eq, Structural)]
pub enum PrimField {
    Start,
    Step,
    End,
}

/// Whether two field accesses denote the same field.
pub open spec fn field_eq(a: Field, b: Field) -> bool {
    match (a, b) {
        (Field::Prim(p), Field::Prim(q)) => p == q,
        (Field::Path(x), Field::Path(y)) => x@ == y@,
        _ => false,
    }
}

/// Copies a field access.
pub fn clone_field(f: &Field) -> (r: Field)
    ensures
        field_eq(r, *f),
{
    match f {
        Field::Prim(p) => Field::Prim(*p),
        Field::Path(path) => {
            let mut out: Vec<usize> = Vec::new();
            let mut i: usize = 0;
            while i < path.len()
                invariant
                    i <= path@.len(),
                    out@ == path@.take(i as int),
                decreases path@.len() - i,
            {
                out.push(path[i]);
                proof {
                    assert(out@ =~= path@.take(i as int + 1));
                }
                i = i + 1;
            }
            proof {
                assert(path@.take(path@.len() as int) =~= path@);
            }
            Field::Path(out)
        },
    }
}

/// A literal; `Double` carries the IEEE-754 binary64 bit pattern.
#[derive(Clone, Debug)]
pub enum Lit {
    BigInt(num_bigint::BigInt),
    Bool(bool),
    Double(u64),
    Int(i64),
    Pauli(Pauli),
    Result(bool),
}

/// One piece of a string-interpolation expression.
#[derive(Clone, Debug)]
pub enum StringComponent {
    Expr(ExprId),
    Lit(String),
}

#[derive(Clone, Debug)]
pub enum ExprKind {
    Array(Vec<ExprId>),
    ArrayRepeat(ExprId, ExprId),
    Assign(ExprId, ExprId),
    AssignField(ExprId, Field, ExprId),
    AssignIndex(ExprId, ExprId, ExprId),
    AssignOp(BinOp, ExprId, ExprId),
    BinOp(BinOp, ExprId, ExprId),
    Block(BlockId),
    Call(ExprId, ExprId),
    Closure(Vec<LocalVarId>, LocalItemId),
    Fail(ExprId),
    Field(ExprId, Field),
    Hole,
    If(ExprId, ExprId, Option<ExprId>),
    Index(ExprId, ExprId),
    Lit(Lit),
    Range(Option<ExprId>, Option<ExprId>, Option<ExprId>),
    Return(ExprId),
    String(Vec<StringComponent>),
    Tuple(Vec<ExprId>),
    UnOp(UnOp, ExprId),
    UpdateField(ExprId, Field, ExprId),
    UpdateIndex(ExprId, ExprId, ExprId),
    Var(Res),
    While(ExprId, BlockId),
}

#[derive(Clone, Debug)]
pub struct Expr {
    pub span: Span,
    pub ty: Ty,
    pub kind: ExprKind,
}

#[derive(Clone, Debug)]
pub enum StmtKind {
    Expr(ExprId),
    Item(LocalItemId),
    Local(Mutability, PatId, ExprId),
    Semi(ExprId),
}

#[derive(Clone, Debug)]
pub struct Stmt {
    pub span: Span,
    pub kind: StmtKind,
}

#[derive(Clone, Debug)]
pub struct Block {
    pub span: Span,
    pub stmts: Vec<StmtId>,
}

/// A name binding inside a pattern.
#[derive(Clone, Debug)]
pub struct Ident {
    pub id: LocalVarId,
    pub span: Span,
    pub name: String,
}

#[derive(Clone, Debug)]
pub enum PatKind {
    Bind(Ident),
    Discard,
    Tuple(Vec<PatId>),
}

#[derive(Clone, Debug)]
pub struct Pat {
    pub span: Span,
    pub kind: PatKind,
}

/// One specialization implementation of a callable.
#[derive(Clone, Debug)]
pub struct SpecDecl {
    /// The control-qubit pattern, present on controlled specializations.
    pub input: Option<PatId>,
    /// The body block.
    pub block: BlockId,
}

/// The four specializations a callable may declare.
#[derive(Clone, Debug)]
pub struct Specialized {
    pub body: SpecDecl,
    pub adj: Option<SpecDecl>,
    pub ctl: Option<SpecDecl>,
    pub ctl_adj: Option<SpecDecl>,
}

#[derive(Clone, Debug)]
pub enum CallableImpl {
    /// The body is provided by the backend.
    Intrinsic,
    /// The body is user code, one block per declared specialization.
    Spec(Specialized),
}

#[derive(Clone, Debug)]
pub struct CallableDecl {
    pub name: String,
    pub span: Span,
    /// The declaration's input pattern.
    pub input: PatId,
    pub output: Ty,
    pub implementation: CallableImpl,
}

/// A global item: a callable, or a user-defined type whose constructor is the
/// identity.
#[derive(Clone, Debug)]
pub enum Global {
    Callable(CallableDecl),
    Udt,
}

#[derive(Clone, Debug)]
pub struct Package {
    pub exprs: Vec<Expr>,
    pub stmts: Vec<Stmt>,
    pub blocks: Vec<Block>,
    pub pats: Vec<Pat>,
    pub items: Vec<Global>,
}

/// The store of every package; node ids are resolved against it.
#[derive(Clone, Debug)]
pub struct PackageStore {
    pub packages: Vec<Package>,
}

pub open spec fn valid_opt_expr(p: Package, e: Option<ExprId>) -> bool {
    match e {
        Option::Some(id) => id < p.exprs.len(),
        Option::None => true,
    }
}

/// Every index that an expression mentions is in bounds for its package.
pub open spec fn wf_expr_kind(p: Package, kind: ExprKind) -> bool {
    match kind {
        ExprKind::Array(items) => forall|i: int|
            0 <= i < items.len() ==> #[trigger] items[i] < p.exprs.len(),
        ExprKind::ArrayRepeat(item, size) => item < p.exprs.len() && size < p.exprs.len(),
        ExprKind::Assign(lhs, rhs) => lhs < p.exprs.len() && rhs < p.exprs.len(),
        ExprKind::AssignField(record, _, replace) => record < p.exprs.len() && replace
            < p.exprs.len(),
        ExprKind::AssignIndex(lhs, mid, rhs) => lhs < p.exprs.len() && mid < p.exprs.len() && rhs
            < p.exprs.len(),
        ExprKind::AssignOp(_, lhs, rhs) => lhs < p.exprs.len() && rhs < p.exprs.len(),
        ExprKind::BinOp(_, lhs, rhs) => lhs < p.exprs.len() && rhs < p.exprs.len(),
        ExprKind::Block(b) => b < p.blocks.len(),
        ExprKind::Call(callee, args) => callee < p.exprs.len() && args < p.exprs.len(),
        ExprKind::Closure(_, _) => true,
        ExprKind::Fail(e) => e < p.exprs.len(),
        ExprKind::Field(e, _) => e < p.exprs.len(),
        ExprKind::Hole => true,
        ExprKind::If(c, t, e) => c < p.exprs.len() && t < p.exprs.len() && valid_opt_expr(p, e),
        ExprKind::Index(a, i) => a < p.exprs.len() && i < p.exprs.len(),
        ExprKind::Lit(_) => true,
        ExprKind::Range(s, st, e) => valid_opt_expr(p, s) && valid_opt_expr(p, st) && valid_opt_expr(
            p,
            e,
        ),
        ExprKind::Return(e) => e < p.exprs.len(),
        ExprKind::String(components) => forall|i: int|
            0 <= i < components.len() ==> match #[trigger] components[i] {
                StringComponent::Expr(e) => e < p.exprs.len(),
                StringComponent::Lit(_) => true,
            },
        ExprKind::Tuple(items) => forall|i: int|
            0 <= i < items.len() ==> #[trigger] items[i] < p.exprs.len(),
        ExprKind::UnOp(_, e) => e < p.exprs.len(),
        ExprKind::UpdateField(record, _, replace) => record < p.exprs.len() && replace
            < p.exprs.len(),
        ExprKind::UpdateIndex(lhs, mid, rhs) => lhs < p.exprs.len() && mid < p.exprs.len() && rhs
            < p.exprs.len(),
        ExprKind::Var(_) => true,
        ExprKind::While(c, b) => c < p.exprs.len() && b < p.blocks.len(),
    }
}

pub open spec fn wf_stmt_kind(p: Package, kind: StmtKind) -> bool {
    match kind {
        StmtKind::Expr(e) => e < p.exprs.len(),
        StmtKind::Item(_) => true,
        StmtKind::Local(_, pat, e) => pat < p.pats.len() && e < p.exprs.len(),
        StmtKind::Semi(e) => e < p.exprs.len(),
    }
}

pub open spec fn wf_pat_kind(p: Package, kind: PatKind) -> bool {
    match kind {
        PatKind::Bind(_) => true,
        PatKind::Discard => true,
        PatKind::Tuple(pats) => forall|i: int|
            0 <= i < pats.len() ==> #[trigger] pats[i] < p.pats.len(),
    }
}

pub open spec fn wf_spec_decl(p: Package, d: SpecDecl) -> bool {
    &&& d.block < p.blocks.len()
    &&& match d.input {
        Option::Some(pat) => pat < p.pats.len(),
        Option::None => true,
    }
}

pub open spec fn wf_opt_spec_decl(p: Package, d: Option<SpecDecl>) -> bool {
    match d {
        Option::Some(d) => wf_spec_decl(p, d),
        Option::None => true,
    }
}

pub open spec fn wf_global(p: Package, g: Global) -> bool {
    match g {
        Global::Callable(decl) => {
            &&& decl.input < p.pats.len()
            &&& match decl.implementation {
                CallableImpl::Intrinsic => true,
                CallableImpl::Spec(s) => {
                    &&& wf_spec_decl(p, s.body)
                    &&& wf_opt_spec_decl(p, s.adj)
                    &&& wf_opt_spec_decl(p, s.ctl)
                    &&& wf_opt_spec_decl(p, s.ctl_adj)
                },
            }
        },
        Global::Udt => true,
    }
}

pub open spec fn wf_package(p: Package) -> bool {
    &&& forall|i: int| 0 <= i < p.exprs.len() ==> wf_expr_kind(p, (#[trigger] p.exprs[i]).kind)
    &&& forall|i: int| 0 <= i < p.stmts.len() ==> wf_stmt_kind(p, (#[trigger] p.stmts[i]).kind)
    &&& forall|i: int| 0 <= i < p.blocks.len() ==> forall|j: int|
        0 <= j < (#[trigger] p.blocks[i]).stmts.len() ==> (#[trigger] p.blocks[i].stmts[j])
            < p.stmts.len()
    &&& forall|i: int| 0 <= i < p.pats.len() ==> wf_pat_kind(p, (#[trigger] p.pats[i]).kind)
    &&& forall|i: int| 0 <= i < p.items.len() ==> wf_global(p, #[trigger] p.items[i])
}

impl PackageStore {
    /// Every node of every package refers only to nodes that exist.
    pub open spec fn wf(self) -> bool {
        forall|i: int| 0 <= i < self.packages.len() ==> wf_package(#[trigger] self.packages[i])
    }

    pub open spec fn valid_package(self, package: PackageId) -> bool {
        package < self.packages.len()
    }

    pub open spec fn valid_expr(self, package: PackageId, expr: ExprId) -> bool {
        package < self.packages.len() && expr < self.packages[package as int].exprs.len()
    }

    pub open spec fn valid_stmt(self, package: PackageId, stmt: StmtId) -> bool {
        package < self.packages.len() && stmt < self.packages[package as int].stmts.len()
    }

    pub open spec fn valid_block(self, package: PackageId, block: BlockId) -> bool {
        package < self.packages.len() && block < self.packages[package as int].blocks.len()
    }

    pub open spec fn valid_pat(self, package: PackageId, pat: PatId) -> bool {
        package < self.packages.len() && pat < self.packages[package as int].pats.len()
    }

    pub open spec fn spec_expr(self, package: PackageId, expr: ExprId) -> Expr {
        self.packages[package as int].exprs[expr as int]
    }

    pub open spec fn spec_stmt(self, package: PackageId, stmt: StmtId) -> Stmt {
        self.packages[package as int].stmts[stmt as int]
    }

    pub open spec fn spec_block(self, package: PackageId, block: BlockId) -> Block {
        self.packages[package as int].blocks[block as int]
    }

    pub open spec fn spec_pat(self, package: PackageId, pat: PatId) -> Pat {
        self.packages[package as int].pats[pat as int]
    }

    /// The number of expressions a package holds, a bound for assignment
    /// nesting.
    pub fn get_package_exprs_len(&self, package: PackageId) -> (r: usize)
        requires
            self.valid_package(package),
        ensures
            r == self.packages@[package as int].exprs.len(),
    {
        self.packages[package].exprs.len()
    }

    /// The number of patterns a package holds, a bound for pattern nesting.
    pub fn get_package_pats_len(&self, package: PackageId) -> (r: usize)
        requires
            self.valid_package(package),
        ensures
            r == self.packages@[package as int].pats.len(),
    {
        self.packages[package].pats.len()
    }

    /// The number of blocks a package holds.
    pub fn get_package_blocks_len(&self, package: PackageId) -> (r: usize)
        requires
            self.valid_package(package),
        ensures
            r == self.packages@[package as int].blocks.len(),
    {
        self.packages[package].blocks.len()
    }

    /// The number of statements a package holds.
    pub fn get_package_stmts_len(&self, package: PackageId) -> (r: usize)
        requires
            self.valid_package(package),
        ensures
            r == self.packages@[package as int].stmts.len(),
    {
        self.packages[package].stmts.len()
    }

    /// Reads an expression node.
    pub fn get_expr(&self, package: PackageId, expr: ExprId) -> (r: &Expr)
        requires
            self.valid_expr(package, expr),
        ensures
            *r == self.spec_expr(package, expr),
    {
        &self.packages[package].exprs[expr]
    }

    /// Reads a statement node.
    pub fn get_stmt(&self, package: PackageId, stmt: StmtId) -> (r: &Stmt)
        requires
            self.valid_stmt(package, stmt),
        ensures
            *r == self.spec_stmt(package, stmt),
    {
        &self.packages[package].stmts[stmt]
    }

    /// Reads a block node.
    pub fn get_block(&self, package: PackageId, block: BlockId) -> (r: &Block)
        requires
            self.valid_block(package, block),
        ensures
            *r == self.spec_block(package, block),
    {
        &self.packages[package].blocks[block]
    }

    /// Reads a pattern node.
    pub fn get_pat(&self, package: PackageId, pat: PatId) -> (r: &Pat)
        requires
            self.valid_pat(package, pat),
        ensures
            *r == self.spec_pat(package, pat),
    {
        &self.packages[package].pats[pat]
    }

    pub open spec fn spec_global(self, id: StoreItemId) -> Option<Global> {
        if id.package < self.packages.len() && id.item < self.packages[
            id.package as int
        ].items.len() {
            Option::Some(self.packages[id.package as int].items[id.item as int])
        } else {
            Option::None
        }
    }

    /// Looks up a global item, `None` when the id is unknown.
    pub fn get_global(&self, id: StoreItemId) -> (r: Option<&Global>)
        ensures
            match r {
                Option::Some(g) => self.spec_global(id) == Option::Some(*g),
                Option::None => self.spec_global(id) is None,
            },
    {
        if id.package < self.packages.len() && id.item < self.packages[id.package].items.len() {
            Some(&self.packages[id.package].items[id.item])
        } else {
            None
        }
    }
}

} // verus!
