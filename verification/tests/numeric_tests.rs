use num_bigint::BigInt;
use qeval::binop::{
    eval_binop_add, eval_binop_div, eval_binop_exp, eval_binop_gt, eval_binop_lt,
    eval_binop_lte, eval_binop_gte, eval_binop_mod, eval_binop_mul, eval_binop_shl,
    eval_binop_shr, eval_binop_sub, eval_binop_andb, eval_binop_orb, eval_binop_xorb,
};
use qeval::error::{Error, Failure};
use qeval::host::{Backend, IntrinsicFault, Receiver};
use qeval::span::{PackageSpan, Span};
use qeval::val::{value_eq, Value};

struct NumOut;

impl Receiver for NumOut {
    fn message(&mut self, _msg: &String) -> bool {
        true
    }

    fn state_dump(&mut self, _dump: &Vec<(u64, (u64, u64))>) -> bool {
        true
    }
}

struct NumSim;

impl Backend<NumOut> for NumSim {
    fn call_intrinsic(
        &mut self,
        _name: &String,
        _arg: Value,
        _rng: &mut rand::rngs::StdRng,
        _out: &mut NumOut,
    ) -> Result<Value, IntrinsicFault> {
        Err(IntrinsicFault::Unknown)
    }

    fn double_pow(&mut self, base: u64, exp: u64) -> u64 {
        f64::from_bits(base).powf(f64::from_bits(exp)).to_bits()
    }
}

fn sp() -> PackageSpan {
    PackageSpan { package: 0, span: Span { lo: 5, hi: 8 } }
}

#[test]
fn int_addition_wraps_on_overflow() {
    let r = eval_binop_add(Value::Int(i64::MAX), Value::Int(1)).unwrap();
    assert!(value_eq(&r, &Value::Int(i64::MIN)));
}

#[test]
fn big_int_addition_never_overflows() {
    let r = eval_binop_add(
        Value::BigInt(BigInt::from(i64::MAX)),
        Value::BigInt(BigInt::from(1)),
    )
    .unwrap();
    let expected: BigInt = BigInt::from(i64::MAX) + BigInt::from(1);
    assert!(value_eq(&r, &Value::BigInt(expected)));
}

#[test]
fn int_division_by_zero_fails() {
    match eval_binop_div(Value::Int(1), Value::Int(0), sp()) {
        Err(Failure::Program(Error::DivZero(ps))) => assert_eq!(ps.span.lo, 5),
        other => panic!("expected division by zero, got {:?}", other),
    }
}

#[test]
fn big_int_division_by_zero_fails() {
    match eval_binop_div(
        Value::BigInt(BigInt::from(1)),
        Value::BigInt(BigInt::from(0)),
        sp(),
    ) {
        Err(Failure::Program(Error::DivZero(_))) => {},
        other => panic!("expected division by zero, got {:?}", other),
    }
}

#[test]
fn double_modulo_by_zero_is_ieee() {
    match eval_binop_mod(
        Value::Double(1.5f64.to_bits()),
        Value::Double(0.0f64.to_bits()),
        sp(),
    ) {
        Ok(Value::Double(bits)) => assert!(f64::from_bits(bits).is_nan()),
        other => panic!("expected the IEEE remainder, got {:?}", other),
    }
}

#[test]
fn double_division_by_zero_is_ieee() {
    let r = eval_binop_div(
        Value::Double(1.0f64.to_bits()),
        Value::Double(0.0f64.to_bits()),
        sp(),
    )
    .unwrap();
    assert!(value_eq(&r, &Value::Double(f64::INFINITY.to_bits())));
}

#[test]
fn double_arithmetic_is_ieee() {
    let r = eval_binop_add(
        Value::Double(2.0f64.to_bits()),
        Value::Double(0.5f64.to_bits()),
    )
    .unwrap();
    assert!(value_eq(&r, &Value::Double(2.5f64.to_bits())));
    let r = eval_binop_mul(
        Value::Double(1.5f64.to_bits()),
        Value::Double(2.0f64.to_bits()),
    )
    .unwrap();
    assert!(value_eq(&r, &Value::Double(3.0f64.to_bits())));
    let r = eval_binop_sub(
        Value::Double(1.0f64.to_bits()),
        Value::Double(0.25f64.to_bits()),
    )
    .unwrap();
    assert!(value_eq(&r, &Value::Double(0.75f64.to_bits())));
}

#[test]
fn double_power_comes_from_the_host() {
    let mut sim = NumSim;
    let r = eval_binop_exp(
        Value::Double(2.0f64.to_bits()),
        Value::Double(3.0f64.to_bits()),
        sp(),
        &mut sim,
    )
    .unwrap();
    assert!(value_eq(&r, &Value::Double(8.0f64.to_bits())));
    let r = eval_binop_exp(
        Value::Double(2.0f64.to_bits()),
        Value::Double((-2.0f64).to_bits()),
        sp(),
        &mut sim,
    )
    .unwrap();
    assert!(value_eq(&r, &Value::Double(0.25f64.to_bits())));
    let r = eval_binop_exp(
        Value::Double(2.0f64.to_bits()),
        Value::Double(0.5f64.to_bits()),
        sp(),
        &mut sim,
    )
    .unwrap();
    assert!(value_eq(&r, &Value::Double(2.0f64.sqrt().to_bits())));
}

#[test]
fn int_power_negative_exponent_fails() {
    let mut sim = NumSim;
    match eval_binop_exp(Value::Int(2), Value::Int(-1), sp(), &mut sim) {
        Err(Failure::Program(Error::InvalidNegativeInt(v, _))) => assert_eq!(v, -1),
        other => panic!("expected a negative-exponent error, got {:?}", other),
    }
}

#[test]
fn int_power_overflow_fails() {
    let mut sim = NumSim;
    match eval_binop_exp(Value::Int(2), Value::Int(63), sp(), &mut sim) {
        Err(Failure::Program(Error::IntTooLarge(v, _))) => assert_eq!(v, 63),
        other => panic!("expected an overflow error, got {:?}", other),
    }
}

#[test]
fn int_power_exact() {
    let mut sim = NumSim;
    let r = eval_binop_exp(Value::Int(3), Value::Int(4), sp(), &mut sim).unwrap();
    assert!(value_eq(&r, &Value::Int(81)));
    let r = eval_binop_exp(Value::Int(-2), Value::Int(63), sp(), &mut sim).unwrap();
    assert!(value_eq(&r, &Value::Int(i64::MIN)));
}

#[test]
fn big_int_power_exact() {
    let mut sim = NumSim;
    let r = eval_binop_exp(Value::BigInt(BigInt::from(2)), Value::Int(100), sp(), &mut sim).unwrap();
    let expected = BigInt::from(2).pow(100);
    assert!(value_eq(&r, &Value::BigInt(expected)));
}

#[test]
fn negative_shift_goes_the_other_way() {
    let r = eval_binop_shl(Value::Int(16), Value::Int(-2), sp()).unwrap();
    assert!(value_eq(&r, &Value::Int(4)));
    let r = eval_binop_shr(Value::Int(16), Value::Int(-2), sp()).unwrap();
    assert!(value_eq(&r, &Value::Int(64)));
    let r = eval_binop_shl(Value::BigInt(BigInt::from(16)), Value::Int(-2), sp()).unwrap();
    assert!(value_eq(&r, &Value::BigInt(BigInt::from(4))));
    let r = eval_binop_shr(Value::BigInt(BigInt::from(16)), Value::Int(-2), sp()).unwrap();
    assert!(value_eq(&r, &Value::BigInt(BigInt::from(64))));
}

#[test]
fn oversized_shift_fails() {
    match eval_binop_shl(Value::Int(1), Value::Int(64), sp()) {
        Err(Failure::Program(Error::IntTooLarge(v, _))) => assert_eq!(v, 64),
        other => panic!("expected an oversized-shift error, got {:?}", other),
    }
}

#[test]
fn modulo_follows_the_dividend_sign() {
    let r = eval_binop_mod(Value::Int(-7), Value::Int(2), sp()).unwrap();
    assert!(value_eq(&r, &Value::Int(-1)));
    let r = eval_binop_mod(
        Value::BigInt(BigInt::from(-7)),
        Value::BigInt(BigInt::from(2)),
        sp(),
    )
    .unwrap();
    assert!(value_eq(&r, &Value::BigInt(BigInt::from(-1))));
}

#[test]
fn division_truncates_toward_zero() {
    let r = eval_binop_div(Value::Int(-7), Value::Int(2), sp()).unwrap();
    assert!(value_eq(&r, &Value::Int(-3)));
    let r = eval_binop_div(
        Value::BigInt(BigInt::from(-7)),
        Value::BigInt(BigInt::from(2)),
        sp(),
    )
    .unwrap();
    assert!(value_eq(&r, &Value::BigInt(BigInt::from(-3))));
}

#[test]
fn bitwise_operations_match_twos_complement() {
    let r = eval_binop_andb(Value::Int(0b1100), Value::Int(0b1010)).unwrap();
    assert!(value_eq(&r, &Value::Int(0b1000)));
    let r = eval_binop_orb(Value::Int(0b1100), Value::Int(0b1010)).unwrap();
    assert!(value_eq(&r, &Value::Int(0b1110)));
    let r = eval_binop_xorb(Value::Int(0b1100), Value::Int(0b1010)).unwrap();
    assert!(value_eq(&r, &Value::Int(0b0110)));
    let r = eval_binop_andb(
        Value::BigInt(BigInt::from(-2)),
        Value::BigInt(BigInt::from(7)),
    )
    .unwrap();
    assert!(value_eq(&r, &Value::BigInt(BigInt::from(6))));
}

#[test]
fn comparisons_order_numbers() {
    let r = eval_binop_lt(Value::Int(1), Value::Int(2)).unwrap();
    assert!(value_eq(&r, &Value::Bool(true)));
    let r = eval_binop_gt(
        Value::BigInt(BigInt::from(5)),
        Value::BigInt(BigInt::from(3)),
    )
    .unwrap();
    assert!(value_eq(&r, &Value::Bool(true)));
    let r = eval_binop_lte(
        Value::Double(1.5f64.to_bits()),
        Value::Double(1.5f64.to_bits()),
    )
    .unwrap();
    assert!(value_eq(&r, &Value::Bool(true)));
    let r = eval_binop_gte(
        Value::Double(1.0f64.to_bits()),
        Value::Double(2.0f64.to_bits()),
    )
    .unwrap();
    assert!(value_eq(&r, &Value::Bool(false)));
}

#[test]
fn nan_is_not_equal_to_itself() {
    let nan = Value::Double(f64::NAN.to_bits());
    let nan2 = Value::Double(f64::NAN.to_bits());
    assert!(!value_eq(&nan, &nan2));
    let z = Value::Double(0.0f64.to_bits());
    let nz = Value::Double((-0.0f64).to_bits());
    assert!(value_eq(&z, &nz));
}

#[test]
fn string_and_array_concatenation() {
    let r = eval_binop_add(
        Value::String("ab".to_string()),
        Value::String("cd".to_string()),
    )
    .unwrap();
    assert!(value_eq(&r, &Value::String("abcd".to_string())));
    let r = eval_binop_add(
        Value::Array(vec![Value::Int(1)]),
        Value::Array(vec![Value::Int(2)]),
    )
    .unwrap();
    assert!(value_eq(&r, &Value::Array(vec![Value::Int(1), Value::Int(2)])));
}

#[test]
fn big_int_rendering_is_decimal() {
    let v = Value::BigInt(BigInt::from(-12345));
    let s = qeval::val::to_display_string(&v);
    assert_eq!(s, "-12345");
}

#[test]
fn display_renders_aggregates() {
    let v = Value::Array(vec![Value::Int(1), Value::Int(2)]);
    assert_eq!(qeval::val::to_display_string(&v), "[1, 2]");
    let t = Value::Tuple(vec![Value::Bool(true), Value::String("x".to_string())]);
    assert_eq!(qeval::val::to_display_string(&t), "(true, x)");
    let one = Value::Tuple(vec![Value::Int(7)]);
    assert_eq!(qeval::val::to_display_string(&one), "(7,)");
    let u = Value::Unit;
    assert_eq!(qeval::val::to_display_string(&u), "()");
    let res = Value::Result(true);
    assert_eq!(qeval::val::to_display_string(&res), "One");
    let p = Value::Pauli(qeval::val::Pauli::X);
    assert_eq!(qeval::val::to_display_string(&p), "PauliX");
    let rng = Value::Range(Some(1), 2, Some(9));
    assert_eq!(qeval::val::to_display_string(&rng), "1..2..9");
}

#[test]
fn big_int_unary_operations() {
    let r = qeval::binop::eval_unop_value(
        qeval::fir::UnOp::Neg,
        Value::BigInt(BigInt::from(5)),
    )
    .unwrap();
    assert!(value_eq(&r, &Value::BigInt(BigInt::from(-5))));
    let r = qeval::binop::eval_unop_value(
        qeval::fir::UnOp::NotB,
        Value::BigInt(BigInt::from(5)),
    )
    .unwrap();
    assert!(value_eq(&r, &Value::BigInt(BigInt::from(-6))));
    let r = qeval::binop::eval_unop_value(qeval::fir::UnOp::NotB, Value::Int(5)).unwrap();
    assert!(value_eq(&r, &Value::Int(-6)));
    let r = qeval::binop::eval_unop_value(qeval::fir::UnOp::Neg, Value::Int(i64::MIN)).unwrap();
    assert!(value_eq(&r, &Value::Int(i64::MIN)));
}

#[test]
fn qubit_rendering_includes_id() {
    let v = Value::Qubit(3);
    assert_eq!(qeval::val::to_display_string(&v), "Qubit3");
}

#[test]
fn double_rendering_is_nonempty_and_value_dependent() {
    let a = qeval::val::to_display_string(&Value::Double(1.5f64.to_bits()));
    let b = qeval::val::to_display_string(&Value::Double(2.5f64.to_bits()));
    assert!(!a.is_empty());
    assert_ne!(a, b);
}
