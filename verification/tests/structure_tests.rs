use qeval::arr::{index_array, make_range, slice_array, update_index_single, Range};
use qeval::env::{BindOutcome, Env, Variable};
use qeval::error::Error;
use qeval::fir::Mutability;
use qeval::span::{PackageSpan, Span};
use qeval::val::{
    clone_value, follow_field_path, to_display_string, update_field_path, value_eq, Value,
};

fn sp() -> PackageSpan {
    PackageSpan { package: 0, span: Span { lo: 1, hi: 2 } }
}

fn ints(vals: Vec<i64>) -> Vec<Value> {
    vals.into_iter().map(Value::Int).collect()
}

#[test]
fn index_reads_elements() {
    let arr = ints(vec![10, 20, 30]);
    let v = index_array(&arr, 1, sp()).unwrap();
    assert!(value_eq(&v, &Value::Int(20)));
    assert!(matches!(index_array(&arr, -1, sp()), Err(Error::InvalidIndex(-1, _))));
    assert!(matches!(index_array(&arr, 3, sp()), Err(Error::IndexOutOfRange(3, _))));
}

#[test]
fn slice_defaults_cover_whole_array() {
    let arr = ints(vec![1, 2, 3, 4]);
    let v = slice_array(&arr, None, 1, None, sp()).unwrap();
    assert!(value_eq(&v, &Value::Array(ints(vec![1, 2, 3, 4]))));
    let v = slice_array(&arr, None, -1, None, sp()).unwrap();
    assert!(value_eq(&v, &Value::Array(ints(vec![4, 3, 2, 1]))));
    let v = slice_array(&arr, Some(1), 2, Some(3), sp()).unwrap();
    assert!(value_eq(&v, &Value::Array(ints(vec![2, 4]))));
    let v = slice_array(&arr, Some(2), 1, Some(0), sp()).unwrap();
    assert!(value_eq(&v, &Value::Array(ints(vec![]))));
}

#[test]
fn make_range_rejects_zero_step() {
    let arr = ints(vec![1, 2]);
    assert!(matches!(make_range(&arr, None, 0, None, sp()), Err(Error::RangeStepZero(_))));
    let r = make_range(&arr, None, 1, None, sp()).unwrap();
    assert_eq!(r.curr, 0);
    assert_eq!(r.end, 1);
}

#[test]
fn range_iteration_walks_inclusive_bounds() {
    let mut r = Range::new(1, 2, 7);
    let mut seen: Vec<i64> = Vec::new();
    while let Some(v) = r.next() {
        seen.push(v);
    }
    assert_eq!(seen, vec![1, 3, 5, 7]);
    let mut r = Range::new(5, -2, 0);
    let mut seen: Vec<i64> = Vec::new();
    while let Some(v) = r.next() {
        seen.push(v);
    }
    assert_eq!(seen, vec![5, 3, 1]);
}

#[test]
fn update_round_trip() {
    // reading back a just-written index yields the written value, and
    // writing back a just-read value leaves the array unchanged
    let arr = ints(vec![1, 2, 3]);
    let updated = update_index_single(&arr, 1, Value::Int(9), sp()).unwrap();
    let read = index_array(&updated, 1, sp()).unwrap();
    assert!(value_eq(&read, &Value::Int(9)));
    let orig = index_array(&arr, 2, sp()).unwrap();
    let same = update_index_single(&arr, 2, orig, sp()).unwrap();
    assert!(value_eq(&Value::Array(same), &Value::Array(ints(vec![1, 2, 3]))));
}

#[test]
fn field_path_round_trip() {
    let record = Value::Tuple(vec![
        Value::Int(1),
        Value::Tuple(vec![Value::Int(2), Value::Int(3)]),
    ]);
    let path = vec![1usize, 0usize];
    let read = follow_field_path(&record, &path).unwrap();
    assert!(value_eq(&read, &Value::Int(2)));
    let back = update_field_path(&record, &path, &read).unwrap();
    assert!(value_eq(&back, &record));
    let replaced = update_field_path(&record, &path, &Value::Int(9)).unwrap();
    let read9 = follow_field_path(&replaced, &path).unwrap();
    assert!(value_eq(&read9, &Value::Int(9)));
}

#[test]
fn environment_binds_and_assigns() {
    let mut env = Env::new_env();
    let ok = env.bind(
        3,
        Variable {
            name: "x".to_string(),
            value: Value::Int(1),
            mutability: Mutability::Mutable,
            span: Span { lo: 0, hi: 1 },
        },
    );
    assert!(ok);
    let (v, m) = env.get(3).unwrap();
    assert!(value_eq(&v, &Value::Int(1)));
    assert!(matches!(m, Mutability::Mutable));
    assert!(matches!(env.assign(3, Value::Int(5)), BindOutcome::Updated));
    let (v, _) = env.get(3).unwrap();
    assert!(value_eq(&v, &Value::Int(5)));
    assert!(matches!(env.assign(99, Value::Int(0)), BindOutcome::NotFound));
}

#[test]
fn immutable_binding_refuses_assignment() {
    let mut env = Env::new_env();
    let _ = env.bind(
        1,
        Variable {
            name: "c".to_string(),
            value: Value::Int(7),
            mutability: Mutability::Immutable,
            span: Span { lo: 0, hi: 1 },
        },
    );
    assert!(matches!(env.assign(1, Value::Int(8)), BindOutcome::Immutable));
    let (v, _) = env.get(1).unwrap();
    assert!(value_eq(&v, &Value::Int(7)));
}

#[test]
fn inner_scope_shadows_and_unwinds() {
    let mut env = Env::new_env();
    let _ = env.bind(
        1,
        Variable {
            name: "x".to_string(),
            value: Value::Int(1),
            mutability: Mutability::Immutable,
            span: Span { lo: 0, hi: 1 },
        },
    );
    env.push_scope(0);
    let _ = env.bind(
        1,
        Variable {
            name: "x".to_string(),
            value: Value::Int(2),
            mutability: Mutability::Immutable,
            span: Span { lo: 0, hi: 1 },
        },
    );
    let (v, _) = env.get(1).unwrap();
    assert!(value_eq(&v, &Value::Int(2)));
    assert!(env.leave_scope());
    let (v, _) = env.get(1).unwrap();
    assert!(value_eq(&v, &Value::Int(1)));
}

#[test]
fn frame_variables_report_names_and_types() {
    let mut env = Env::new_env();
    let _ = env.bind(
        1,
        Variable {
            name: "q".to_string(),
            value: Value::Bool(true),
            mutability: Mutability::Immutable,
            span: Span { lo: 0, hi: 1 },
        },
    );
    let infos = env.get_variables_in_top_frame();
    assert_eq!(infos.len(), 1);
    assert_eq!(infos[0].name, "q");
    assert_eq!(infos[0].ty_name, "Bool");
    assert!(value_eq(&infos[0].value, &Value::Bool(true)));
}

#[test]
fn functor_application_composes() {
    let id = qeval::FunctorApp::identity();
    let adj = qeval::update_functor_app(qeval::Functor::Adj, id);
    assert!(adj.adjoint);
    let back = qeval::update_functor_app(qeval::Functor::Adj, adj);
    assert_eq!(back, id);
    let c1 = qeval::update_functor_app(qeval::Functor::Ctl, id);
    let c2 = qeval::update_functor_app(qeval::Functor::Ctl, c1);
    assert_eq!(c2.controlled, 2);
    assert!(!c2.adjoint);
}

#[test]
fn clone_preserves_structure() {
    let v = Value::Tuple(vec![
        Value::Array(vec![Value::Int(1), Value::String("s".to_string())]),
        Value::BigInt(num_bigint::BigInt::from(12)),
    ]);
    let c = clone_value(&v);
    assert!(value_eq(&c, &v));
    assert_eq!(to_display_string(&c), "([1, s], 12)");
}
