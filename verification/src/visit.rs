//! The resolving walk over a fragment's syntax: scopes are entered and
//! left around namespaces, callables, blocks and binding forms, names are
//! bound at the offsets where they become visible, and every path
//! occurrence is resolved.
//!
//! The update operator's middle operand is special-cased: an unqualified
//! path there that resolves to no local is a field name and is not visited.

use vstd::prelude::*;
use crate::ast;
use crate::resolve::{is_field_update, Assigner, NameKind, Resolver, ScopeKind};
use crate::span::Span;

verus! {

/// Collects the names a pattern binds, for sharing callable parameters
/// with specialization scopes.
fn collect_param_names(pat: &ast::Pat, names: &mut Vec<String>)
    decreases *pat,
{
    match &pat.kind {
        ast::PatKind::Bind(name) => {
            names.push(name.name.clone());
        },
        ast::PatKind::Discard => {},
        ast::PatKind::Elided => {},
        ast::PatKind::Invalid => {},
        ast::PatKind::Paren(inner) => collect_param_names(inner, names),
        ast::PatKind::Tuple(pats) => {
            let mut i: usize = 0;
            while i < pats.len()
                invariant
                    i <= pats@.len(),
                    pat.kind matches ast::PatKind::Tuple(ps) && ps@ == pats@,
                decreases pats@.len() - i,
            {
                collect_param_names(&pats[i], names);
                i = i + 1;
            }
        },
    }
}

/// Walks a whole fragment.
pub fn visit_package(resolver: &mut Resolver, assigner: &mut Assigner, package: &ast::Package)
    requires
        old(resolver).wf(),
    ensures
        final(resolver).wf(),
{
    let mut i: usize = 0;
    while i < package.nodes.len()
        invariant
            resolver.wf(),
            i <= package.nodes@.len(),
        decreases package.nodes@.len() - i,
    {
        match &package.nodes[i] {
            ast::TopLevelNode::Namespace(ns) => visit_namespace(resolver, assigner, ns),
            ast::TopLevelNode::Stmt(stmt) => visit_stmt(resolver, assigner, stmt),
        }
        i = i + 1;
    }
}

/// Walks a namespace: its opens bind at entry, then its items, all within
/// a namespace scope.
pub fn visit_namespace(resolver: &mut Resolver, assigner: &mut Assigner, namespace:
    &ast::Namespace)
    requires
        old(resolver).wf(),
    ensures
        final(resolver).wf(),
{
    resolver.push_scope(
        namespace.span,
        ScopeKind::Namespace(namespace.name.name.clone()),
    );
    let mut i: usize = 0;
    while i < namespace.items.len()
        invariant
            resolver.wf(),
            i <= namespace.items@.len(),
        decreases namespace.items@.len() - i,
    {
        match &namespace.items[i].kind {
            ast::ItemKind::Open(name, alias) => resolver.bind_open(name, alias),
            _ => {},
        }
        i = i + 1;
    }
    let mut j: usize = 0;
    while j < namespace.items.len()
        invariant
            resolver.wf(),
            j <= namespace.items@.len(),
        decreases namespace.items@.len() - j,
    {
        visit_item(resolver, assigner, &namespace.items[j]);
        j = j + 1;
    }
    resolver.pop_scope();
}

/// Walks one item: only a callable has resolvable contents.
pub fn visit_item(resolver: &mut Resolver, assigner: &mut Assigner, item: &ast::Item)
    requires
        old(resolver).wf(),
    ensures
        final(resolver).wf(),
    decreases *item,
{
    match &item.kind {
        ast::ItemKind::Callable(decl) => visit_callable_decl(resolver, assigner, decl),
        ast::ItemKind::Open(_, _) => {},
        ast::ItemKind::Ty(_) => {},
        ast::ItemKind::Invalid => {},
    }
}

/// Walks a callable declaration: a callable scope binds its type
/// parameters and input (visible from the end of the input pattern), and
/// the parameter names are remembered so specialization scopes can admit
/// them alongside their own patterns.
pub fn visit_callable_decl(resolver: &mut Resolver, assigner: &mut Assigner, decl:
    &ast::CallableDecl)
    requires
        old(resolver).wf(),
    ensures
        final(resolver).wf(),
    decreases *decl,
{
    let mut param_names: Vec<String> = Vec::new();
    collect_param_names(&decl.input, &mut param_names);
    let mut prev_params: Option<Vec<String>> = Some(param_names);
    core::mem::swap(&mut resolver.curr_params, &mut prev_params);
    resolver.push_scope(decl.span, ScopeKind::Callable);
    resolver.bind_type_parameters(decl);
    resolver.bind_pat(&decl.input, decl.input.span.hi);
    match &decl.body {
        ast::CallableBody::Block(block) => visit_block(resolver, assigner, block),
        ast::CallableBody::Specs(specs) => {
            let mut i: usize = 0;
            while i < specs.len()
                invariant
                    resolver.wf(),
                    i <= specs@.len(),
                    decl.body matches ast::CallableBody::Specs(sp) && sp@ == specs@,
                decreases specs@.len() - i,
            {
                visit_spec_decl(resolver, assigner, &specs[i]);
                i = i + 1;
            }
        },
    }
    resolver.pop_scope();
    resolver.curr_params = prev_params;
}

/// Walks one specialization: an explicit implementation binds its own
/// input pattern in a block scope that also admits the callable's
/// parameter names.
pub fn visit_spec_decl(resolver: &mut Resolver, assigner: &mut Assigner, decl: &ast::SpecDecl)
    requires
        old(resolver).wf(),
    ensures
        final(resolver).wf(),
    decreases *decl,
{
    match &decl.body {
        ast::SpecBody::Impl(input, block) => {
            let mut bindings: Vec<String> = match &resolver.curr_params {
                Option::Some(params) => {
                    let mut copied: Vec<String> = Vec::new();
                    let mut i: usize = 0;
                    while i < params.len()
                        invariant
                            i <= params@.len(),
                        decreases params@.len() - i,
                    {
                        copied.push(params[i].clone());
                        i = i + 1;
                    }
                    copied
                },
                Option::None => Vec::new(),
            };
            resolver.push_scope(block.span, ScopeKind::Block);
            resolver.bind_pat_recursive(input, block.span.lo, &mut bindings);
            visit_block(resolver, assigner, block);
            resolver.pop_scope();
        },
        ast::SpecBody::Intrinsic => {},
        ast::SpecBody::Generated => {},
    }
}

/// Walks a block: items declared anywhere in it bind at entry, then each
/// statement, all within a block scope.
pub fn visit_block(resolver: &mut Resolver, assigner: &mut Assigner, block: &ast::Block)
    requires
        old(resolver).wf(),
    ensures
        final(resolver).wf(),
    decreases *block,
{
    resolver.push_scope(block.span, ScopeKind::Block);
    let stmts = &block.stmts;
    let mut i: usize = 0;
    while i < stmts.len()
        invariant
            resolver.wf(),
            i <= stmts@.len(),
        decreases stmts@.len() - i,
    {
        match &stmts[i].kind {
            ast::StmtKind::Item(item) => {
                if assigner.next_id < usize::MAX - 1 {
                    resolver.bind_local_item(assigner, item);
                }
            },
            _ => {},
        }
        i = i + 1;
    }
    let mut j: usize = 0;
    while j < stmts.len()
        invariant
            resolver.wf(),
            j <= stmts@.len(),
            block.stmts@ == stmts@,
        decreases stmts@.len() - j,
    {
        visit_stmt(resolver, assigner, &stmts[j]);
        j = j + 1;
    }
    resolver.pop_scope();
}

/// Walks one statement: a local binding's names become visible after the
/// statement; a scoped qubit allocation binds its pattern over its block.
pub fn visit_stmt(resolver: &mut Resolver, assigner: &mut Assigner, stmt: &ast::Stmt)
    requires
        old(resolver).wf(),
    ensures
        final(resolver).wf(),
    decreases *stmt,
{
    match &stmt.kind {
        ast::StmtKind::Item(item) => visit_item(resolver, assigner, item),
        ast::StmtKind::Local(pat, expr) => {
            visit_expr(resolver, assigner, expr);
            resolver.bind_pat(pat, stmt.span.hi);
        },
        ast::StmtKind::Qubit(pat, init, block) => {
            visit_expr(resolver, assigner, init);
            match block {
                Option::Some(block) => {
                    resolver.push_scope(block.span, ScopeKind::Block);
                    resolver.bind_pat(pat, block.span.lo);
                    visit_block(resolver, assigner, block);
                    resolver.pop_scope();
                },
                Option::None => {
                    resolver.bind_pat(pat, stmt.span.hi);
                },
            }
        },
        ast::StmtKind::Empty => {},
        ast::StmtKind::ExprStmt(expr) => visit_expr(resolver, assigner, expr),
        ast::StmtKind::SemiStmt(expr) => visit_expr(resolver, assigner, expr),
        ast::StmtKind::Invalid => {},
    }
}

/// Walks one expression: paths resolve as terms; loop and lambda patterns
/// bind over their bodies; the update operators skip a middle operand that
/// reads as a field name.
pub fn visit_expr(resolver: &mut Resolver, assigner: &mut Assigner, expr: &ast::Expr)
    requires
        old(resolver).wf(),
    ensures
        final(resolver).wf(),
    decreases *expr,
{
    match &expr.kind {
        ast::ExprKind::For(pat, iter, block) => {
            visit_expr(resolver, assigner, iter);
            resolver.push_scope(block.span, ScopeKind::Block);
            resolver.bind_pat(pat, block.span.lo);
            visit_block(resolver, assigner, block);
            resolver.pop_scope();
        },
        ast::ExprKind::Lambda(input, output) => {
            resolver.push_scope(output.span, ScopeKind::Block);
            resolver.bind_pat(input, output.span.lo);
            visit_expr(resolver, assigner, output);
            resolver.pop_scope();
        },
        ast::ExprKind::Path(path) => resolver.resolve_path(NameKind::Term, path),
        ast::ExprKind::Update(container, index, replace) => {
            visit_expr(resolver, assigner, container);
            if !is_field_update(
                &resolver.globals,
                &resolver.locals,
                &resolver.curr_scope_chain,
                index,
            ) {
                visit_expr(resolver, assigner, index);
            }
            visit_expr(resolver, assigner, replace);
        },
        ast::ExprKind::AssignUpdate(container, index, replace) => {
            visit_expr(resolver, assigner, container);
            if !is_field_update(
                &resolver.globals,
                &resolver.locals,
                &resolver.curr_scope_chain,
                index,
            ) {
                visit_expr(resolver, assigner, index);
            }
            visit_expr(resolver, assigner, replace);
        },
        ast::ExprKind::Children(children) => {
            let mut i: usize = 0;
            while i < children.len()
                invariant
                    resolver.wf(),
                    i <= children@.len(),
                    expr.kind matches ast::ExprKind::Children(cs) && cs@ == children@,
                decreases children@.len() - i,
            {
                visit_expr(resolver, assigner, &children[i]);
                i = i + 1;
            }
        },
    }
}

} // verus!
