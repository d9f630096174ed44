//! The slice of the surface syntax that name resolution reads: identifiers
//! and paths, patterns, items, and namespaces.

use vstd::prelude::*;
use crate::span::Span;

verus! {

pub type NodeId = usize;

pub type ParamId = usize;

/// A name occurrence with its node id and span.
#[derive(Clone, Debug)]
pub struct Ident {
    pub id: NodeId,
    pub span: Span,
    pub name: String,
}

/// A possibly qualified name occurrence.
#[derive(Clone, Debug)]
pub struct Path {
    pub id: NodeId,
    pub span: Span,
    pub namespace: Option<Ident>,
    pub name: Ident,
}

/// A binding pattern.
#[derive(Debug)]
pub enum PatKind {
    Bind(Ident),
    Discard,
    Elided,
    Paren(Box<Pat>),
    Tuple(Vec<Pat>),
    Invalid,
}

#[derive(Debug)]
pub struct Pat {
    pub span: Span,
    pub kind: PatKind,
}

/// How one specialization of a callable is given.
#[derive(Debug)]
pub enum SpecBody {
    /// An explicit implementation, with its own input pattern.
    Impl(Pat, Block),
    /// A body the backend provides.
    Intrinsic,
    /// A body generated from another specialization.
    Generated,
}

/// One specialization declaration.
#[derive(Debug)]
pub struct SpecDecl {
    pub span: Span,
    pub body: SpecBody,
}

/// A callable's body: one block, or explicit specializations.
#[derive(Debug)]
pub enum CallableBody {
    Block(Block),
    Specs(Vec<SpecDecl>),
}

/// A callable declaration, reduced to what binding and resolution read.
#[derive(Debug)]
pub struct CallableDecl {
    pub span: Span,
    pub name: Ident,
    pub generics: Vec<Ident>,
    pub input: Pat,
    pub body: CallableBody,
}

/// An item of a namespace or block.
#[derive(Debug)]
pub enum ItemKind {
    /// An import of a namespace, optionally under an alias.
    Open(Ident, Option<Ident>),
    Callable(CallableDecl),
    /// A type declaration, which also makes a term of the same name.
    Ty(Ident),
    Invalid,
}

#[derive(Debug)]
pub struct Item {
    pub span: Span,
    /// Attribute names; `Unimplemented` marks the item as declared but not
    /// available.
    pub attrs: Vec<String>,
    pub kind: ItemKind,
}

/// A namespace declaration.
#[derive(Debug)]
pub struct Namespace {
    pub id: NodeId,
    pub span: Span,
    pub name: Ident,
    pub items: Vec<Item>,
}

/// An expression, reduced to the shapes resolution treats specially; any
/// other form carries its children in evaluation order.
#[derive(Debug)]
pub enum ExprKind {
    /// A loop binding a pattern over an iterable within a block.
    For(Pat, Box<Expr>, Block),
    /// An anonymous callable binding its input over its body.
    Lambda(Pat, Box<Expr>),
    /// A name occurrence.
    Path(Path),
    /// The ternary copy-and-update operator; its middle operand may be a
    /// field name.
    Update(Box<Expr>, Box<Expr>, Box<Expr>),
    /// The update-assignment operator; its middle operand may be a field
    /// name.
    AssignUpdate(Box<Expr>, Box<Expr>, Box<Expr>),
    /// Any other form: the children in evaluation order.
    Children(Vec<Expr>),
}

#[derive(Debug)]
pub struct Expr {
    pub id: NodeId,
    pub span: Span,
    pub kind: ExprKind,
}

/// A statement, reduced to what resolution reads.
#[derive(Debug)]
pub enum StmtKind {
    Empty,
    ExprStmt(Expr),
    Item(Box<Item>),
    /// A binding whose names are visible after the statement.
    Local(Pat, Expr),
    /// A qubit allocation, optionally scoped to a block.
    Qubit(Pat, Expr, Option<Block>),
    SemiStmt(Expr),
    Invalid,
}

#[derive(Debug)]
pub struct Stmt {
    pub id: NodeId,
    pub span: Span,
    pub kind: StmtKind,
}

/// A braced run of statements.
#[derive(Debug)]
pub struct Block {
    pub span: Span,
    pub stmts: Vec<Stmt>,
}

/// One node of a compilation fragment.
#[derive(Debug)]
pub enum TopLevelNode {
    Namespace(Namespace),
    /// A top-level statement, as interactive fragments produce.
    Stmt(Box<Stmt>),
}

/// A compilation fragment, as the binder walks it.
#[derive(Debug)]
pub struct Package {
    pub nodes: Vec<TopLevelNode>,
}

} // verus!
