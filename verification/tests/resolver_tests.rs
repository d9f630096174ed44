use qeval::ast::{
    Block, CallableBody, CallableDecl, Expr, ExprKind, Ident, Item, ItemKind, Namespace,
    Package, Pat, PatKind, Path, SpecBody, SpecDecl, Stmt, StmtKind, TopLevelNode,
};
use qeval::fir::ItemId;
use qeval::resolve::{
    bind_global_item, resolve, Assigner, Error, GlobalScope, GlobalTable, ItemStatus, Locals,
    NameKind, Names, Open, Prim, Res, Resolver, Scope, ScopeKind, TrackedName,
};
use qeval::span::Span;

fn sp(lo: u32, hi: u32) -> Span {
    Span { lo, hi }
}

fn ident(id: usize, name: &str) -> Ident {
    Ident { id, span: sp(1, 2), name: name.to_string() }
}

fn ident_at(id: usize, name: &str, span: Span) -> Ident {
    Ident { id, span, name: name.to_string() }
}

fn item(package: Option<usize>, item: usize) -> ItemId {
    ItemId { package, item }
}

fn globals_with(namespaces: Vec<(&str, Vec<(&str, Res)>)>) -> GlobalScope {
    let mut terms: Vec<(String, Vec<(String, Res)>)> = Vec::new();
    let mut names: Vec<String> = Vec::new();
    for (ns, items) in namespaces {
        let mut table: Vec<(String, Res)> = Vec::new();
        for (n, r) in items {
            table.push((n.to_string(), r));
        }
        terms.push((ns.to_string(), table));
        names.push(ns.to_string());
    }
    GlobalScope { tys: Vec::new(), terms, namespaces: names, intrinsics: Vec::new() }
}

#[test]
fn ambiguous_opens_report_smaller_span_first() {
    // Two opens bring the same name; the open with the smaller span is
    // reported first even though it was recorded second.
    let res_a = Res::Item(item(Some(1), 0), ItemStatus::Available);
    let res_b = Res::Item(item(Some(1), 1), ItemStatus::Available);
    let globals = globals_with(vec![
        ("NsA", vec![("Foo", res_a)]),
        ("NsB", vec![("Foo", res_b)]),
    ]);
    let mut scope = Scope::new(ScopeKind::Block, sp(0, 100));
    scope.opens.push((
        String::new(),
        vec![
            Open { namespace: "NsA".to_string(), span: sp(40, 50) },
            Open { namespace: "NsB".to_string(), span: sp(10, 20) },
        ],
    ));
    let mut locals = Locals::new_locals();
    let sid = locals.push_scope(scope);
    let chain = vec![sid];
    let name = ident_at(7, "Foo", sp(60, 63));
    match resolve(NameKind::Term, &globals, &locals, &chain, &name, &None) {
        Err(Error::Ambiguous {
            name,
            first_open,
            second_open,
            name_span,
            first_open_span,
            second_open_span,
        }) => {
            assert_eq!(name, "Foo");
            assert_eq!(first_open, "NsB");
            assert_eq!(second_open, "NsA");
            assert_eq!(name_span, sp(60, 63));
            assert_eq!(first_open_span, sp(10, 20));
            assert_eq!(second_open_span, sp(40, 50));
        },
        other => panic!("expected an ambiguity, got {:?}", other),
    }
}

#[test]
fn single_open_resolves() {
    let res_a = Res::Item(item(Some(1), 0), ItemStatus::Available);
    let globals = globals_with(vec![("NsA", vec![("Foo", res_a)])]);
    let mut scope = Scope::new(ScopeKind::Block, sp(0, 100));
    scope.opens.push((
        String::new(),
        vec![Open { namespace: "NsA".to_string(), span: sp(1, 5) }],
    ));
    let mut locals = Locals::new_locals();
    let sid = locals.push_scope(scope);
    let chain = vec![sid];
    let name = ident(7, "Foo");
    match resolve(NameKind::Term, &globals, &locals, &chain, &name, &None) {
        Ok(r) => assert_eq!(r, res_a),
        other => panic!("expected a resolution, got {:?}", other),
    }
}

#[test]
fn local_variable_shadows_everything() {
    let res_a = Res::Item(item(Some(1), 0), ItemStatus::Available);
    let globals = globals_with(vec![("NsA", vec![("Foo", res_a)])]);
    let mut scope = Scope::new(ScopeKind::Block, sp(0, 100));
    scope.opens.push((
        String::new(),
        vec![Open { namespace: "NsA".to_string(), span: sp(1, 5) }],
    ));
    scope.vars.push(("Foo".to_string(), (0, 42)));
    let mut locals = Locals::new_locals();
    let sid = locals.push_scope(scope);
    let chain = vec![sid];
    let name = ident(7, "Foo");
    match resolve(NameKind::Term, &globals, &locals, &chain, &name, &None) {
        Ok(Res::Local(id)) => assert_eq!(id, 42),
        other => panic!("expected the local, got {:?}", other),
    }
}

#[test]
fn callable_scope_hides_outer_variables() {
    let globals = globals_with(vec![]);
    let mut outer = Scope::new(ScopeKind::Block, sp(0, 100));
    outer.vars.push(("x".to_string(), (0, 1)));
    let inner = Scope::new(ScopeKind::Callable, sp(5, 95));
    let mut locals = Locals::new_locals();
    let outer_id = locals.push_scope(outer);
    let inner_id = locals.push_scope(inner);
    let chain = vec![outer_id, inner_id];
    let name = ident(9, "x");
    match resolve(NameKind::Term, &globals, &locals, &chain, &name, &None) {
        Err(Error::NotFound(n, _)) => assert_eq!(n, "x"),
        other => panic!("expected not-found, got {:?}", other),
    }
}

#[test]
fn prelude_ambiguity_reports_lexicographically_first() {
    let res_a = Res::Item(item(Some(2), 0), ItemStatus::Available);
    let res_b = Res::Item(item(Some(2), 1), ItemStatus::Available);
    let globals = globals_with(vec![
        ("Microsoft.Quantum.Intrinsic", vec![("H", res_a)]),
        ("Microsoft.Quantum.Canon", vec![("H", res_b)]),
    ]);
    let mut locals = Locals::new_locals();
    let sid = locals.push_scope(Scope::new(ScopeKind::Block, sp(0, 100)));
    let chain = vec![sid];
    let name = ident_at(3, "H", sp(30, 31));
    match resolve(NameKind::Term, &globals, &locals, &chain, &name, &None) {
        Err(Error::AmbiguousPrelude { name, candidate_a, candidate_b, span }) => {
            assert_eq!(name, "H");
            assert_eq!(candidate_a, "Microsoft.Quantum.Canon");
            assert_eq!(candidate_b, "Microsoft.Quantum.Intrinsic");
            assert_eq!(span, sp(30, 31));
        },
        other => panic!("expected a prelude ambiguity, got {:?}", other),
    }
}

#[test]
fn unopened_global_is_last_resort() {
    let res_a = Res::Item(item(Some(1), 0), ItemStatus::Available);
    let globals = globals_with(vec![("NsA", vec![("Foo", res_a)])]);
    let mut locals = Locals::new_locals();
    let sid = locals.push_scope(Scope::new(ScopeKind::Block, sp(0, 100)));
    let chain = vec![sid];
    let name = ident(7, "Foo");
    let qualifier = Some(ident(8, "NsA"));
    match resolve(NameKind::Term, &globals, &locals, &chain, &name, &qualifier) {
        Ok(r) => assert_eq!(r, res_a),
        other => panic!("expected the global, got {:?}", other),
    }
}

#[test]
fn opens_shadow_prelude() {
    let res_open = Res::Item(item(Some(1), 0), ItemStatus::Available);
    let res_prelude = Res::Item(item(Some(1), 1), ItemStatus::Available);
    let globals = globals_with(vec![
        ("NsA", vec![("Foo", res_open)]),
        ("Microsoft.Quantum.Core", vec![("Foo", res_prelude)]),
    ]);
    let mut scope = Scope::new(ScopeKind::Block, sp(0, 100));
    scope.opens.push((
        String::new(),
        vec![Open { namespace: "NsA".to_string(), span: sp(1, 5) }],
    ));
    let mut locals = Locals::new_locals();
    let sid = locals.push_scope(scope);
    let chain = vec![sid];
    let name = ident(7, "Foo");
    match resolve(NameKind::Term, &globals, &locals, &chain, &name, &None) {
        Ok(r) => assert_eq!(r, res_open),
        other => panic!("expected the opened namespace's item, got {:?}", other),
    }
}

#[test]
fn unimplemented_candidates_drop_when_ambiguous() {
    let res_impl = Res::Item(item(Some(1), 0), ItemStatus::Available);
    let res_unimpl = Res::Item(item(Some(1), 1), ItemStatus::Unimplemented);
    let globals = globals_with(vec![
        ("NsA", vec![("Foo", res_unimpl)]),
        ("NsB", vec![("Foo", res_impl)]),
    ]);
    let mut scope = Scope::new(ScopeKind::Block, sp(0, 100));
    scope.opens.push((
        String::new(),
        vec![
            Open { namespace: "NsA".to_string(), span: sp(1, 5) },
            Open { namespace: "NsB".to_string(), span: sp(6, 9) },
        ],
    ));
    let mut locals = Locals::new_locals();
    let sid = locals.push_scope(scope);
    let chain = vec![sid];
    let name = ident(7, "Foo");
    match resolve(NameKind::Term, &globals, &locals, &chain, &name, &None) {
        Ok(r) => assert_eq!(r, res_impl),
        other => panic!("expected the implemented item, got {:?}", other),
    }
}

#[test]
fn builtin_types_resolve_from_core() {
    let table = GlobalTable::new_table();
    let mut locals = Locals::new_locals();
    let sid = locals.push_scope(Scope::new(ScopeKind::Block, sp(0, 100)));
    let chain = vec![sid];
    let name = ident(1, "Int");
    match resolve(NameKind::Ty, &table.scope, &locals, &chain, &name, &None) {
        Ok(Res::PrimTy(Prim::Int)) => {},
        other => panic!("expected the primitive type, got {:?}", other),
    }
    let unit = ident(2, "Unit");
    match resolve(NameKind::Ty, &table.scope, &locals, &chain, &unit, &None) {
        Ok(Res::UnitTy) => {},
        other => panic!("expected the unit type, got {:?}", other),
    }
}

#[test]
fn duplicate_declaration_reported() {
    let mut names = Names::new_names();
    let mut scope = globals_with(vec![]);
    let mut assigner = Assigner::new_assigner();
    let mut errors: Vec<Error> = Vec::new();
    let ns = "NsA".to_string();
    let decl1 = Item {
        span: sp(1, 2),
        attrs: Vec::new(),
        kind: ItemKind::Ty(ident(1, "T")),
    };
    let decl2 = Item {
        span: sp(3, 4),
        attrs: Vec::new(),
        kind: ItemKind::Ty(ident_at(2, "T", sp(3, 4))),
    };
    bind_global_item(&mut names, &mut scope, &ns, &mut assigner, &decl1, &mut errors);
    assert_eq!(errors.len(), 0);
    bind_global_item(&mut names, &mut scope, &ns, &mut assigner, &decl2, &mut errors);
    assert_eq!(errors.len(), 1);
    assert!(matches!(&errors[0], Error::Duplicate(n, nsn, _) if n == "T" && nsn == "NsA"));
}

#[test]
fn duplicate_intrinsic_reported() {
    let mut names = Names::new_names();
    let mut scope = globals_with(vec![]);
    let mut assigner = Assigner::new_assigner();
    let mut errors: Vec<Error> = Vec::new();
    let mk = |id: usize| Item {
        span: sp(1, 2),
        attrs: Vec::new(),
        kind: ItemKind::Callable(CallableDecl {
            span: sp(1, 2),
            name: ident(id, "X"),
            generics: Vec::new(),
            input: Pat { span: sp(1, 2), kind: PatKind::Discard },
            body: CallableBody::Specs(vec![SpecDecl {
                span: sp(1, 2),
                body: SpecBody::Intrinsic,
            }]),
        }),
    };
    let a = mk(1);
    let b = mk(2);
    bind_global_item(&mut names, &mut scope, &"NsA".to_string(), &mut assigner, &a, &mut errors);
    assert_eq!(errors.len(), 0);
    bind_global_item(&mut names, &mut scope, &"NsB".to_string(), &mut assigner, &b, &mut errors);
    assert_eq!(errors.len(), 1);
    assert!(matches!(&errors[0], Error::DuplicateIntrinsic(n, _) if n == "X"));
}

#[test]
fn duplicate_binding_in_pattern_reported() {
    let table = GlobalTable::new_table();
    let mut resolver = Resolver::with_persistent_local_scope(table, Vec::new());
    let pat = Pat {
        span: sp(0, 10),
        kind: PatKind::Tuple(vec![
            Pat { span: sp(0, 4), kind: PatKind::Bind(ident(1, "q")) },
            Pat { span: sp(5, 9), kind: PatKind::Bind(ident_at(2, "q", sp(5, 9))) },
        ]),
    };
    resolver.bind_pat(&pat, 0);
    let errors = resolver.drain_errors();
    assert_eq!(errors.len(), 1);
    assert!(matches!(&errors[0], Error::DuplicateBinding(n, s) if n == "q" && s.lo == 5));
}

#[test]
fn dropped_name_reported_as_not_available() {
    let table = GlobalTable::new_table();
    let dropped = vec![TrackedName {
        name: "Gone".to_string(),
        namespace: "NsOld".to_string(),
    }];
    let mut resolver = Resolver::with_persistent_local_scope(table, dropped);
    let path = Path {
        id: 9,
        span: sp(2, 6),
        namespace: None,
        name: ident_at(10, "Gone", sp(2, 6)),
    };
    resolver.resolve_path(NameKind::Term, &path);
    let errors = resolver.drain_errors();
    assert_eq!(errors.len(), 1);
    match &errors[0] {
        Error::NotAvailable(n, q, _) => {
            assert_eq!(n, "Gone");
            assert_eq!(q, "NsOld.Gone");
        },
        other => panic!("expected not-available, got {:?}", other),
    }
}

#[test]
fn binder_walks_namespaces() {
    let mut table = GlobalTable::new_table();
    let mut assigner = Assigner::new_assigner();
    let package = Package {
        nodes: vec![TopLevelNode::Namespace(Namespace {
            id: 0,
            span: sp(0, 50),
            name: ident(1, "NsA"),
            items: vec![Item {
                span: sp(2, 10),
                attrs: Vec::new(),
                kind: ItemKind::Callable(CallableDecl {
                    span: sp(2, 10),
                    name: ident(2, "Op"),
                    generics: Vec::new(),
                    input: Pat { span: sp(3, 4), kind: PatKind::Discard },
                    body: CallableBody::Block(Block { span: sp(5, 9), stmts: vec![] }),
                }),
            }],
        })],
    };
    let errors = table.add_local_package(&mut assigner, &package);
    assert_eq!(errors.len(), 0);
    let mut locals = Locals::new_locals();
    let sid = locals.push_scope(Scope::new(ScopeKind::Block, sp(0, 100)));
    let chain = vec![sid];
    let name = ident(7, "Op");
    let qualifier = Some(ident(8, "NsA"));
    match resolve(NameKind::Term, &table.scope, &locals, &chain, &name, &qualifier) {
        Ok(Res::Item(id, ItemStatus::Available)) => assert_eq!(id.item, 1),
        other => panic!("expected the bound callable, got {:?}", other),
    }
}

#[test]
fn field_update_disambiguation() {
    let globals = globals_with(vec![]);
    let mut locals = Locals::new_locals();
    let mut scope = Scope::new(ScopeKind::Block, sp(0, 100));
    scope.vars.push(("v".to_string(), (0, 4)));
    let sid = locals.push_scope(scope);
    let chain = vec![sid];
    // an unqualified path naming a local is not a field
    let local_expr = Expr {
        id: 1,
        span: sp(1, 2),
        kind: ExprKind::Path(Path {
            id: 1,
            span: sp(1, 2),
            namespace: None,
            name: ident(2, "v"),
        }),
    };
    assert!(!qeval::resolve::is_field_update(&globals, &locals, &chain, &local_expr));
    // an unqualified path naming nothing local is a field
    let field_expr = Expr {
        id: 3,
        span: sp(1, 2),
        kind: ExprKind::Path(Path {
            id: 3,
            span: sp(1, 2),
            namespace: None,
            name: ident(4, "Re"),
        }),
    };
    assert!(qeval::resolve::is_field_update(&globals, &locals, &chain, &field_expr));
}

#[test]
fn offset_query_lists_visible_locals() {
    let mut locals = Locals::new_locals();
    let mut outer = Scope::new(ScopeKind::Block, sp(0, 100));
    outer.vars.push(("a".to_string(), (5, 1)));
    outer.vars.push(("late".to_string(), (90, 2)));
    let _ = locals.push_scope(outer);
    let found = locals.get_all_at_offset(10);
    assert_eq!(found.len(), 1);
    assert_eq!(found[0].name, "a");
}

#[test]
fn field_name_extraction_reads_names_table() {
    let mut names = Names::new_names();
    names.insert(1, Res::Local(1));
    let local_path = Expr {
        id: 1,
        span: sp(1, 2),
        kind: ExprKind::Path(Path {
            id: 1,
            span: sp(1, 2),
            namespace: None,
            name: ident(2, "v"),
        }),
    };
    assert!(qeval::resolve::extract_field_name(&names, &local_path).is_none());
    let field_path = Expr {
        id: 3,
        span: sp(1, 2),
        kind: ExprKind::Path(Path {
            id: 3,
            span: sp(1, 2),
            namespace: None,
            name: ident(4, "Re"),
        }),
    };
    let found = qeval::resolve::extract_field_name(&names, &field_path);
    assert_eq!(found.map(|s| s.as_str()), Some("Re"));
}

#[test]
fn visitor_resolves_a_small_fragment() {
    // namespace NsA { operation Op(q) { let x = q; x; missing; } }
    let body = Block {
        span: sp(20, 48),
        stmts: vec![
            Stmt {
                id: 10,
                span: sp(21, 30),
                kind: StmtKind::Local(
                    Pat { span: sp(25, 26), kind: PatKind::Bind(ident_at(11, "x", sp(25, 26))) },
                    Expr {
                        id: 12,
                        span: sp(28, 29),
                        kind: ExprKind::Path(Path {
                            id: 12,
                            span: sp(28, 29),
                            namespace: None,
                            name: ident_at(13, "q", sp(28, 29)),
                        }),
                    },
                ),
            },
            Stmt {
                id: 14,
                span: sp(31, 38),
                kind: StmtKind::ExprStmt(Expr {
                    id: 15,
                    span: sp(31, 38),
                    kind: ExprKind::Path(Path {
                        id: 15,
                        span: sp(31, 38),
                        namespace: None,
                        name: ident_at(16, "x", sp(31, 38)),
                    }),
                }),
            },
            Stmt {
                id: 17,
                span: sp(39, 46),
                kind: StmtKind::ExprStmt(Expr {
                    id: 18,
                    span: sp(39, 46),
                    kind: ExprKind::Path(Path {
                        id: 18,
                        span: sp(39, 46),
                        namespace: None,
                        name: ident_at(19, "missing", sp(39, 46)),
                    }),
                }),
            },
        ],
    };
    let decl = CallableDecl {
        span: sp(5, 49),
        name: ident(2, "Op"),
        generics: Vec::new(),
        input: Pat { span: sp(8, 9), kind: PatKind::Bind(ident_at(3, "q", sp(8, 9))) },
        body: CallableBody::Block(body),
    };
    let package = Package {
        nodes: vec![TopLevelNode::Namespace(Namespace {
            id: 0,
            span: sp(0, 50),
            name: ident(1, "NsA"),
            items: vec![Item {
                span: sp(5, 49),
                attrs: Vec::new(),
                kind: ItemKind::Callable(decl),
            }],
        })],
    };
    let mut table = GlobalTable::new_table();
    let mut assigner = Assigner::new_assigner();
    let errors = table.add_local_package(&mut assigner, &package);
    assert_eq!(errors.len(), 0);
    let mut resolver = Resolver::new(table, Vec::new());
    qeval::visit::visit_package(&mut resolver, &mut assigner, &package);
    let errors = resolver.drain_errors();
    assert_eq!(errors.len(), 1);
    assert!(matches!(&errors[0], Error::NotFound(n, _) if n == "missing"));
    // q resolves to the parameter, x to the local binding
    assert!(matches!(resolver.names.get(12), Some(Res::Local(3))));
    assert!(matches!(resolver.names.get(15), Some(Res::Local(11))));
}
