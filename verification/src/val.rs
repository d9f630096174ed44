//! The value model: the tagged sum the evaluator computes with, its
//! mathematical view, structural equality, cloning, field paths, and the
//! display rendering used by string interpolation.

use vstd::prelude::*;
use crate::FunctorApp;
use crate::big::{big_val, big_eq, big_to_string};
use crate::dbl::{dbl_eq_of, dbl_eq, dbl_str_of, dbl_to_string};
use crate::decimal::{dec_of, i64_to_string, usize_to_string};
use crate::fir::StoreItemId;

verus! {

/// A Pauli operator tag.
#[derive(Clone, Copy, Debug, PartialEq, Eq, Structural)]
pub enum Pauli {
    I,
    X,
    Y,
    Z,
}

/// A runtime value. `Double` carries the IEEE-754 binary64 bit pattern;
/// `Result(true)` is `One`; a `Range` is `(start, step, end)` with optional
/// endpoints.
#[derive(Debug)]
pub enum Value {
    Unit,
    Bool(bool),
    Int(i64),
    BigInt(num_bigint::BigInt),
    Double(u64),
    String(String),
    Pauli(Pauli),
    Result(bool),
    Qubit(usize),
    Range(Option<i64>, i64, Option<i64>),
    Array(Vec<Value>),
    Tuple(Vec<Value>),
    Global(StoreItemId, FunctorApp),
    Closure(Vec<Value>, StoreItemId, FunctorApp),
}

/// The mathematical view of a [`Value`]: big integers become `int`, strings
/// become character sequences, aggregates become sequences of views.
pub ghost enum Val {
    Unit,
    Bool(bool),
    Int(i64),
    BigInt(int),
    Double(u64),
    String(Seq<char>),
    Pauli(Pauli),
    Result(bool),
    Qubit(usize),
    Range(Option<i64>, i64, Option<i64>),
    Array(Seq<Val>),
    Tuple(Seq<Val>),
    Global(StoreItemId, FunctorApp),
    Closure(Seq<Val>, StoreItemId, FunctorApp),
}

pub open spec fn vview(v: Value) -> Val
    decreases v,
{
    match v {
        Value::Unit => Val::Unit,
        Value::Bool(b) => Val::Bool(b),
        Value::Int(i) => Val::Int(i),
        Value::BigInt(b) => Val::BigInt(big_val(b)),
        Value::Double(d) => Val::Double(d),
        Value::String(s) => Val::String(s@),
        Value::Pauli(p) => Val::Pauli(p),
        Value::Result(r) => Val::Result(r),
        Value::Qubit(q) => Val::Qubit(q),
        Value::Range(start, step, end) => Val::Range(start, step, end),
        Value::Array(items) => Val::Array(
            Seq::new(
                items@.len(),
                |i: int|
                    if 0 <= i < items@.len() {
                        vview(items@[i])
                    } else {
                        Val::Unit
                    },
            ),
        ),
        Value::Tuple(items) => Val::Tuple(
            Seq::new(
                items@.len(),
                |i: int|
                    if 0 <= i < items@.len() {
                        vview(items@[i])
                    } else {
                        Val::Unit
                    },
            ),
        ),
        Value::Global(id, app) => Val::Global(id, app),
        Value::Closure(args, id, app) => Val::Closure(
            Seq::new(
                args@.len(),
                |i: int|
                    if 0 <= i < args@.len() {
                        vview(args@[i])
                    } else {
                        Val::Unit
                    },
            ),
            id,
            app,
        ),
    }
}

impl View for Value {
    type V = Val;

    open spec fn view(&self) -> Val {
        vview(*self)
    }
}

/// The views of a sequence of values.
pub open spec fn views_of(s: Seq<Value>) -> Seq<Val> {
    Seq::new(s.len(), |i: int| s[i]@)
}

/// The view of an array value is the sequence of its elements' views.
pub broadcast proof fn lemma_vview_array(items: Vec<Value>)
    ensures
        #[trigger] vview(Value::Array(items)) == Val::Array(views_of(items@)),
{
    assert(vview(Value::Array(items))->Array_0 =~= views_of(items@));
}

/// The view of a tuple value is the sequence of its components' views.
pub broadcast proof fn lemma_vview_tuple(items: Vec<Value>)
    ensures
        #[trigger] vview(Value::Tuple(items)) == Val::Tuple(views_of(items@)),
{
    assert(vview(Value::Tuple(items))->Tuple_0 =~= views_of(items@));
}

/// The view of a closure value carries the views of its captured arguments.
pub broadcast proof fn lemma_vview_closure(
    args: Vec<Value>,
    id: StoreItemId,
    app: FunctorApp,
)
    ensures
        #[trigger] vview(Value::Closure(args, id, app)) == Val::Closure(views_of(args@), id, app),
{
    assert(vview(Value::Closure(args, id, app))->Closure_0 =~= views_of(args@));
}

/// The name of a value's type, for debugger display.
pub open spec fn ty_name_of(v: Val) -> Seq<char> {
    match v {
        Val::Unit => ("Unit")@,
        Val::Bool(_) => ("Bool")@,
        Val::Int(_) => ("Int")@,
        Val::BigInt(_) => ("BigInt")@,
        Val::Double(_) => ("Double")@,
        Val::String(_) => ("String")@,
        Val::Pauli(_) => ("Pauli")@,
        Val::Result(_) => ("Result")@,
        Val::Qubit(_) => ("Qubit")@,
        Val::Range(_, _, _) => ("Range")@,
        Val::Array(_) => ("Array")@,
        Val::Tuple(_) => ("Tuple")@,
        Val::Global(_, _) => ("Global")@,
        Val::Closure(_, _, _) => ("Closure")@,
    }
}

impl Value {
    /// The canonical empty tuple.
    pub fn unit() -> (r: Value)
        ensures
            r@ == Val::Unit,
    {
        Value::Unit
    }

    /// The name of this value's type, for debugger display.
    pub fn ty_name(&self) -> (r: &'static str)
        ensures
            r@ == ty_name_of(self@),
    {
        match self {
            Value::Unit => "Unit",
            Value::Bool(_) => "Bool",
            Value::Int(_) => "Int",
            Value::BigInt(_) => "BigInt",
            Value::Double(_) => "Double",
            Value::String(_) => "String",
            Value::Pauli(_) => "Pauli",
            Value::Result(_) => "Result",
            Value::Qubit(_) => "Qubit",
            Value::Range(_, _, _) => "Range",
            Value::Array(_) => "Array",
            Value::Tuple(_) => "Tuple",
            Value::Global(_, _) => "Global",
            Value::Closure(_, _, _) => "Closure",
        }
    }
}

/// Structural equality of values, as the language's `==` sees them:
/// elementwise on aggregates, mathematical on big integers, IEEE on doubles
/// (so `NaN != NaN`).
pub open spec fn veq(a: Val, b: Val) -> bool
    decreases a,
{
    match (a, b) {
        (Val::Unit, Val::Unit) => true,
        (Val::Bool(x), Val::Bool(y)) => x == y,
        (Val::Int(x), Val::Int(y)) => x == y,
        (Val::BigInt(x), Val::BigInt(y)) => x == y,
        (Val::Double(x), Val::Double(y)) => dbl_eq_of(x, y),
        (Val::String(x), Val::String(y)) => x == y,
        (Val::Pauli(x), Val::Pauli(y)) => x == y,
        (Val::Result(x), Val::Result(y)) => x == y,
        (Val::Qubit(x), Val::Qubit(y)) => x == y,
        (Val::Range(s1, st1, e1), Val::Range(s2, st2, e2)) => s1 == s2 && st1 == st2 && e1 == e2,
        (Val::Array(xs), Val::Array(ys)) => xs.len() == ys.len() && forall|i: int|
            0 <= i < xs.len() ==> veq(#[trigger] xs[i], ys[i]),
        (Val::Tuple(xs), Val::Tuple(ys)) => xs.len() == ys.len() && forall|i: int|
            0 <= i < xs.len() ==> veq(#[trigger] xs[i], ys[i]),
        (Val::Global(id1, f1), Val::Global(id2, f2)) => id1 == id2 && f1 == f2,
        (Val::Closure(xs, id1, f1), Val::Closure(ys, id2, f2)) => id1 == id2 && f1 == f2 && xs.len()
            == ys.len() && forall|i: int| 0 <= i < xs.len() ==> veq(#[trigger] xs[i], ys[i]),
        _ => false,
    }
}

/// Relates elementwise equality of view sequences to elementwise equality
/// of the underlying values.
pub proof fn lemma_veq_seq(xs: Seq<Value>, ys: Seq<Value>)
    ensures
        (views_of(xs).len() == views_of(ys).len() && (forall|i: int|
            0 <= i < views_of(xs).len() ==> veq(
                #[trigger] views_of(xs)[i],
                views_of(ys)[i],
            ))) <==> (xs.len() == ys.len() && (forall|i: int|
            0 <= i < xs.len() ==> veq(#[trigger] xs[i]@, ys[i]@))),
{
    if xs.len() == ys.len() {
        if forall|i: int| 0 <= i < xs.len() ==> veq(#[trigger] xs[i]@, ys[i]@) {
            assert forall|i: int| 0 <= i < views_of(xs).len() implies veq(
                #[trigger] views_of(xs)[i],
                views_of(ys)[i],
            ) by {
                assert(views_of(xs)[i] == xs[i]@);
                assert(views_of(ys)[i] == ys[i]@);
                assert(veq(xs[i]@, ys[i]@));
            }
        } else {
            let k = choose|k: int| 0 <= k < xs.len() && !veq(#[trigger] xs[k]@, ys[k]@);
            assert(views_of(xs)[k] == xs[k]@);
            assert(views_of(ys)[k] == ys[k]@);
            assert(!veq(views_of(xs)[k], views_of(ys)[k]));
        }
    }
}

/// Decides structural equality of two values.
pub fn value_eq(a: &Value, b: &Value) -> (r: bool)
    ensures
        r == veq(a@, b@),
    decreases *a,
{
    match (a, b) {
        (Value::Unit, Value::Unit) => true,
        (Value::Bool(x), Value::Bool(y)) => x == y,
        (Value::Int(x), Value::Int(y)) => x == y,
        (Value::BigInt(x), Value::BigInt(y)) => big_eq(x, y),
        (Value::Double(x), Value::Double(y)) => dbl_eq(*x, *y),
        (Value::String(x), Value::String(y)) => *x == *y,
        (Value::Pauli(x), Value::Pauli(y)) => x == y,
        (Value::Result(x), Value::Result(y)) => x == y,
        (Value::Qubit(x), Value::Qubit(y)) => x == y,
        (Value::Range(s1, st1, e1), Value::Range(s2, st2, e2)) => s1 == s2 && st1 == st2 && e1
            == e2,
        (Value::Array(xs), Value::Array(ys)) => {
            proof {
                lemma_vview_array(*xs);
                lemma_vview_array(*ys);
                lemma_veq_seq(xs@, ys@);
            }
            values_eq(xs, ys)
        },
        (Value::Tuple(xs), Value::Tuple(ys)) => {
            proof {
                lemma_vview_tuple(*xs);
                lemma_vview_tuple(*ys);
                lemma_veq_seq(xs@, ys@);
            }
            values_eq(xs, ys)
        },
        (Value::Global(id1, f1), Value::Global(id2, f2)) => id1 == id2 && f1 == f2,
        (Value::Closure(xs, id1, f1), Value::Closure(ys, id2, f2)) => {
            proof {
                lemma_vview_closure(*xs, *id1, *f1);
                lemma_vview_closure(*ys, *id2, *f2);
                lemma_veq_seq(xs@, ys@);
            }
            id1 == id2 && f1 == f2 && values_eq(xs, ys)
        },
        _ => false,
    }
}

/// Decides elementwise structural equality of two value vectors.
fn values_eq(xs: &Vec<Value>, ys: &Vec<Value>) -> (r: bool)
    ensures
        r == (xs@.len() == ys@.len() && forall|i: int|
            0 <= i < xs@.len() ==> veq(#[trigger] xs@[i]@, ys@[i]@)),
    decreases xs@,
{
    if xs.len() != ys.len() {
        return false;
    }
    let mut i: usize = 0;
    while i < xs.len()
        invariant
            i <= xs@.len(),
            xs@.len() == ys@.len(),
            forall|j: int| 0 <= j < i ==> veq(#[trigger] xs@[j]@, ys@[j]@),
        decreases xs@.len() - i,
    {
        if !value_eq(&xs[i], &ys[i]) {
            return false;
        }
        i = i + 1;
    }
    true
}

/// Clones a value; the clone has the same view.
pub fn clone_value(v: &Value) -> (r: Value)
    ensures
        r@ == v@,
    decreases *v,
{
    match v {
        Value::Unit => Value::Unit,
        Value::Bool(b) => Value::Bool(*b),
        Value::Int(i) => Value::Int(*i),
        Value::BigInt(b) => Value::BigInt(b.clone()),
        Value::Double(d) => Value::Double(*d),
        Value::String(s) => Value::String(s.clone()),
        Value::Pauli(p) => Value::Pauli(*p),
        Value::Result(r) => Value::Result(*r),
        Value::Qubit(q) => Value::Qubit(*q),
        Value::Range(start, step, end) => Value::Range(*start, *step, *end),
        Value::Array(items) => {
            let out = clone_values(items);
            proof {
                lemma_vview_array(*items);
                lemma_vview_array(out);
                assert(views_of(out@) =~= views_of(items@));
            }
            Value::Array(out)
        },
        Value::Tuple(items) => {
            let out = clone_values(items);
            proof {
                lemma_vview_tuple(*items);
                lemma_vview_tuple(out);
                assert(views_of(out@) =~= views_of(items@));
            }
            Value::Tuple(out)
        },
        Value::Global(id, app) => Value::Global(*id, *app),
        Value::Closure(args, id, app) => {
            let out = clone_values(args);
            proof {
                lemma_vview_closure(*args, *id, *app);
                lemma_vview_closure(out, *id, *app);
                assert(views_of(out@) =~= views_of(args@));
            }
            Value::Closure(out, *id, *app)
        },
    }
}

/// Clones a vector of values elementwise.
pub fn clone_values(items: &Vec<Value>) -> (r: Vec<Value>)
    ensures
        r@.len() == items@.len(),
        forall|i: int| 0 <= i < items@.len() ==> #[trigger] r@[i]@ == items@[i]@,
    decreases items@,
{
    let mut out: Vec<Value> = Vec::new();
    let mut i: usize = 0;
    while i < items.len()
        invariant
            i <= items@.len(),
            out@.len() == i,
            forall|j: int| 0 <= j < i ==> #[trigger] out@[j]@ == items@[j]@,
        decreases items@.len() - i,
    {
        out.push(clone_value(&items[i]));
        i = i + 1;
    }
    out
}

/// Follows a tuple path: `None` when the path does not match the record's
/// shape.
pub open spec fn spec_follow_field_path(v: Val, path: Seq<usize>) -> Option<Val>
    decreases path.len(),
{
    if path.len() == 0 {
        Option::Some(v)
    } else {
        match v {
            Val::Tuple(items) => if (path[0] as int) < items.len() {
                spec_follow_field_path(items[path[0] as int], path.drop_first())
            } else {
                Option::None
            },
            _ => Option::None,
        }
    }
}

/// Walks a recorded tuple path through a value.
pub fn follow_field_path(value: &Value, path: &Vec<usize>) -> (r: Option<Value>)
    ensures
        match r {
            Option::Some(out) => spec_follow_field_path(value@, path@) == Option::Some(out@),
            Option::None => spec_follow_field_path(value@, path@) is None,
        },
{
    let mut cur: &Value = value;
    let mut i: usize = 0;
    proof {
        assert(path@.skip(0) =~= path@);
    }
    while i < path.len()
        invariant
            i <= path@.len(),
            spec_follow_field_path(value@, path@) == spec_follow_field_path(
                cur@,
                path@.skip(i as int),
            ),
        decreases path@.len() - i,
    {
        assert(path@.skip(i as int).len() > 0);
        assert(path@.skip(i as int)[0] == path@[i as int]);
        assert(path@.skip(i as int).drop_first() =~= path@.skip(i as int + 1));
        match cur {
            Value::Tuple(items) => {
                proof {
                    lemma_vview_tuple(*items);
                }
                let idx = path[i];
                if idx < items.len() {
                    cur = &items[idx];
                } else {
                    return None;
                }
            },
            _ => {
                return None;
            },
        }
        i = i + 1;
    }
    assert(path@.skip(i as int) =~= Seq::<usize>::empty());
    Some(clone_value(cur))
}

/// Replaces the component a tuple path points at: `None` when the path does
/// not match the record's shape.
pub open spec fn spec_update_field_path(record: Val, path: Seq<usize>, replace: Val) -> Option<
    Val,
>
    decreases path.len(),
{
    if path.len() == 0 {
        Option::Some(replace)
    } else {
        match record {
            Val::Tuple(items) => if (path[0] as int) < items.len() {
                match spec_update_field_path(items[path[0] as int], path.drop_first(), replace) {
                    Option::Some(updated) => Option::Some(
                        Val::Tuple(items.update(path[0] as int, updated)),
                    ),
                    Option::None => Option::None,
                }
            } else {
                Option::None
            },
            _ => Option::None,
        }
    }
}

/// Rebuilds a record with the component at a recorded tuple path replaced.
pub fn update_field_path(record: &Value, path: &Vec<usize>, replace: &Value) -> (r: Option<Value>)
    ensures
        match r {
            Option::Some(out) => spec_update_field_path(record@, path@, replace@) == Option::Some(
                out@,
            ),
            Option::None => spec_update_field_path(record@, path@, replace@) is None,
        },
{
    proof {
        assert(path@.skip(0) =~= path@);
    }
    update_field_path_at(record, path, 0, replace)
}

fn update_field_path_at(record: &Value, path: &Vec<usize>, at: usize, replace: &Value) -> (r:
    Option<Value>)
    requires
        at <= path@.len(),
    ensures
        match r {
            Option::Some(out) => spec_update_field_path(record@, path@.skip(at as int), replace@)
                == Option::Some(out@),
            Option::None => spec_update_field_path(record@, path@.skip(at as int), replace@)
                is None,
        },
    decreases path@.len() - at,
{
    if at == path.len() {
        assert(path@.skip(at as int) =~= Seq::<usize>::empty());
        return Some(clone_value(replace));
    }
    assert(path@.skip(at as int).len() > 0);
    assert(path@.skip(at as int)[0] == path@[at as int]);
    assert(path@.skip(at as int).drop_first() =~= path@.skip(at as int + 1));
    match record {
        Value::Tuple(items) => {
            let next_index = path[at];
            if next_index < items.len() {
                match update_field_path_at(&items[next_index], path, at + 1, replace) {
                    Option::Some(updated) => {
                        let ghost iv = record@->Tuple_0;
                        let ghost uview = updated@;
                        let mut out = clone_values(items);
                        out.set(next_index, updated);
                        proof {
                            lemma_vview_tuple(*items);
                            lemma_vview_tuple(out);
                            assert(iv[next_index as int] == items@[next_index as int]@);
                            assert(views_of(out@) =~= iv.update(next_index as int, uview));
                        }
                        let result = Value::Tuple(out);
                        Some(result)
                    },
                    Option::None => None,
                }
            } else {
                None
            }
        },
        _ => None,
    }
}

/// Tuple field round-trip: writing back the component a valid path reads
/// leaves the record unchanged.
pub proof fn lemma_field_path_round_trip(record: Val, path: Seq<usize>)
    requires
        spec_follow_field_path(record, path) is Some,
    ensures
        spec_update_field_path(record, path, spec_follow_field_path(record, path)->Some_0)
            == Option::Some(record),
    decreases path.len(),
{
    if path.len() == 0 {
    } else {
        match record {
            Val::Tuple(items) => {
                let idx = path[0] as int;
                lemma_field_path_round_trip(items[idx], path.drop_first());
                assert(items.update(idx, items[idx]) =~= items);
            },
            _ => {},
        }
    }
}

/// The display rendering of a value, as string interpolation sees it.
pub open spec fn val_str(v: Val) -> Seq<char>
    decreases v,
{
    match v {
        Val::Unit => ("()")@,
        Val::Bool(b) => if b {
            ("true")@
        } else {
            ("false")@
        },
        Val::Int(x) => dec_of(x as int),
        Val::BigInt(x) => dec_of(x),
        Val::Double(d) => dbl_str_of(d),
        Val::String(s) => s,
        Val::Pauli(p) => match p {
            Pauli::I => ("PauliI")@,
            Pauli::X => ("PauliX")@,
            Pauli::Y => ("PauliY")@,
            Pauli::Z => ("PauliZ")@,
        },
        Val::Result(r) => if r {
            ("One")@
        } else {
            ("Zero")@
        },
        Val::Qubit(q) => ("Qubit")@.add(dec_of(q as int)),
        Val::Range(start, step, end) => {
            let s = match start {
                Option::Some(x) => dec_of(x as int),
                Option::None => Seq::<char>::empty(),
            };
            let e = match end {
                Option::Some(x) => dec_of(x as int),
                Option::None => Seq::<char>::empty(),
            };
            s.add(("..")@).add(dec_of(step as int)).add(("..")@).add(e)
        },
        Val::Array(items) => ("[")@.add(vals_strs_join(items)).add(("]")@),
        Val::Tuple(items) => {
            let inner = vals_strs_join(items);
            if items.len() == 1 {
                ("(")@.add(inner).add((",)")@)
            } else {
                ("(")@.add(inner).add((")")@)
            }
        },
        Val::Global(_, _) => ("<callable>")@,
        Val::Closure(_, _, _) => ("<callable>")@,
    }
}

/// Joins the renderings of a sequence of values with a comma and space.
pub open spec fn vals_strs_join(items: Seq<Val>) -> Seq<char>
    decreases items,
{
    if items.len() == 0 {
        Seq::<char>::empty()
    } else if items.len() == 1 {
        val_str(items[0])
    } else {
        val_str(items[0]).add((", ")@).add(vals_strs_join(items.drop_first()))
    }
}

/// Relies on `String::push_str` to append rendered text.
#[verifier::external_body]
pub fn str_push(s: &mut String, t: &str)
    ensures
        final(s)@ == old(s)@.add(t@),
{
    s.push_str(t)
}

/// Appends an owned rendering to the buffer.
pub fn string_append(s: &mut String, t: &String)
    ensures
        final(s)@ == old(s)@.add(t@),
{
    str_push(s, t.as_str())
}

/// Renders a value for display.
pub fn to_display_string(v: &Value) -> (r: String)
    ensures
        r@ == val_str(v@),
    decreases *v,
{
    match v {
        Value::Unit => {
            let mut s = String::new();
            str_push(&mut s, "()");
            assert(s@ =~= val_str(v@));
            s
        },
        Value::Bool(b) => {
            let mut s = String::new();
            if *b {
                str_push(&mut s, "true");
            } else {
                str_push(&mut s, "false");
            }
            assert(s@ =~= val_str(v@));
            s
        },
        Value::Int(x) => i64_to_string(*x),
        Value::BigInt(x) => big_to_string(x),
        Value::Double(d) => dbl_to_string(*d),
        Value::String(st) => st.clone(),
        Value::Pauli(p) => {
            let mut s = String::new();
            match p {
                Pauli::I => str_push(&mut s, "PauliI"),
                Pauli::X => str_push(&mut s, "PauliX"),
                Pauli::Y => str_push(&mut s, "PauliY"),
                Pauli::Z => str_push(&mut s, "PauliZ"),
            }
            assert(s@ =~= val_str(v@));
            s
        },
        Value::Result(r) => {
            let mut s = String::new();
            if *r {
                str_push(&mut s, "One");
            } else {
                str_push(&mut s, "Zero");
            }
            assert(s@ =~= val_str(v@));
            s
        },
        Value::Qubit(q) => {
            let mut s = String::new();
            str_push(&mut s, "Qubit");
            let qs = usize_to_string(*q);
            string_append(&mut s, &qs);
            assert(s@ =~= val_str(v@));
            s
        },
        Value::Range(start, step, end) => {
            let mut s = String::new();
            match start {
                Option::Some(x) => {
                    let xs = i64_to_string(*x);
                    string_append(&mut s, &xs);
                },
                Option::None => {},
            }
            str_push(&mut s, "..");
            let ss = i64_to_string(*step);
            string_append(&mut s, &ss);
            str_push(&mut s, "..");
            match end {
                Option::Some(x) => {
                    let xs = i64_to_string(*x);
                    string_append(&mut s, &xs);
                },
                Option::None => {},
            }
            assert(s@ =~= val_str(v@));
            s
        },
        Value::Array(items) => {
            let mut s = String::new();
            str_push(&mut s, "[");
            let inner = join_display_strings(items);
            string_append(&mut s, &inner);
            str_push(&mut s, "]");
            proof {
                lemma_vview_array(*items);
                assert(s@ =~= val_str(v@));
            }
            s
        },
        Value::Tuple(items) => {
            let mut s = String::new();
            str_push(&mut s, "(");
            let inner = join_display_strings(items);
            string_append(&mut s, &inner);
            if items.len() == 1 {
                str_push(&mut s, ",)");
            } else {
                str_push(&mut s, ")");
            }
            proof {
                lemma_vview_tuple(*items);
                assert(s@ =~= val_str(v@));
            }
            s
        },
        Value::Global(_, _) => {
            let mut s = String::new();
            str_push(&mut s, "<callable>");
            assert(s@ =~= val_str(v@));
            s
        },
        Value::Closure(_, _, _) => {
            let mut s = String::new();
            str_push(&mut s, "<callable>");
            assert(s@ =~= val_str(v@));
            s
        },
    }
}

fn join_display_strings(items: &Vec<Value>) -> (r: String)
    ensures
        r@ == vals_strs_join(views_of(items@)),
    decreases items@,
{
    let ghost parts = views_of(items@);
    let mut s = String::new();
    let mut i: usize = 0;
    proof {
        assert(parts.take(0) =~= Seq::<Val>::empty());
    }
    while i < items.len()
        invariant
            i <= items@.len(),
            parts == views_of(items@),
            s@ == vals_strs_join(parts.take(i as int)),
        decreases items@.len() - i,
    {
        if i > 0 {
            str_push(&mut s, ", ");
        }
        let part = to_display_string(&items[i]);
        string_append(&mut s, &part);
        proof {
            lemma_vals_join_take_step(parts, i as int);
            assert(parts[i as int] == items@[i as int]@);
            assert(s@ =~= vals_strs_join(parts.take(i as int + 1)));
        }
        i = i + 1;
    }
    proof {
        assert(parts.take(items@.len() as int) =~= parts);
    }
    s
}

/// One step of joining: extending the joined prefix by one rendering appends
/// a separator exactly when the prefix was non-empty.
proof fn lemma_vals_join_take_step(parts: Seq<Val>, i: int)
    requires
        0 <= i < parts.len(),
    ensures
        i == 0 ==> vals_strs_join(parts.take(i + 1)) == val_str(parts[0]),
        i > 0 ==> vals_strs_join(parts.take(i + 1)) == vals_strs_join(parts.take(i)).add(
            (", ")@,
        ).add(val_str(parts[i])),
    decreases i,
{
    if i == 0 {
        assert(parts.take(1).len() == 1);
        assert(parts.take(1)[0] == parts[0]);
    } else {
        lemma_vals_join_take_step(parts.drop_first(), i - 1);
        assert(parts.take(i + 1).drop_first() =~= parts.drop_first().take(i));
        assert(parts.take(i).drop_first() =~= parts.drop_first().take(i - 1));
        assert(parts.take(i + 1)[0] == parts[0]);
        assert(parts.take(i)[0] == parts[0]);
        if i == 1 {
            assert(vals_strs_join(parts.take(2)) == val_str(parts[0]).add((", ")@).add(
                vals_strs_join(parts.drop_first().take(1)),
            ));
            assert(parts.drop_first().take(1)[0] == parts[1]);
            assert(vals_strs_join(parts.drop_first().take(1)) == val_str(parts[1]));
            assert(vals_strs_join(parts.take(1)) == val_str(parts[0]));
        } else {
            assert(vals_strs_join(parts.take(i + 1)) == val_str(parts[0]).add((", ")@).add(
                vals_strs_join(parts.drop_first().take(i)),
            ));
            assert(vals_strs_join(parts.take(i)) == val_str(parts[0]).add((", ")@).add(
                vals_strs_join(parts.drop_first().take(i - 1)),
            ));
            assert(parts.drop_first()[i - 1] == parts[i]);
            assert(vals_strs_join(parts.drop_first().take(i)) == vals_strs_join(
                parts.drop_first().take(i - 1),
            ).add((", ")@).add(val_str(parts[i])));
            assert(vals_strs_join(parts.take(i)).add((", ")@).add(val_str(parts[i])) =~= val_str(
                parts[0],
            ).add((", ")@).add(
                vals_strs_join(parts.drop_first().take(i - 1)).add((", ")@).add(
                    val_str(parts[i]),
                ),
            ));
        }
    }
}

} // verus!
