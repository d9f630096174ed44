//! The evaluator's collaborators: the quantum backend, the output receiver,
//! and the classical random number generator handed to intrinsics.

use vstd::prelude::*;
use crate::val::Value;

verus! {

#[verifier::external_type_specification]
#[verifier::external_body]
pub struct ExStdRng(rand::rngs::StdRng);

/// Relies on `StdRng: SeedableRng::seed_from_u64` for a deterministic
/// generator; nothing is assumed of the values it will produce.
#[verifier::external_body]
pub fn rng_from_seed(seed: u64) -> (r: rand::rngs::StdRng) {
    <rand::rngs::StdRng as rand::SeedableRng>::seed_from_u64(seed)
}

/// Relies on `StdRng: SeedableRng::from_entropy`; nothing is assumed of the
/// values it will produce. Panics if the operating system's entropy source
/// fails to provide seed material.
#[verifier::external_body]
pub fn rng_from_entropy() -> (r: rand::rngs::StdRng) {
    <rand::rngs::StdRng as rand::SeedableRng>::from_entropy()
}

/// Why an intrinsic call failed; the evaluator attaches spans and the
/// callable's name.
#[derive(Clone, Debug)]
pub enum IntrinsicFault {
    /// The backend knows no intrinsic of this name.
    Unknown,
    /// The intrinsic itself failed with this message.
    Failed(String),
    /// The receiver failed to emit output.
    Output,
    /// The qubits of the invocation are not unique.
    QubitUniqueness,
    /// The argument qubits are entangled with outside qubits.
    QubitsNotSeparable,
    /// This qubit was released while not in the ground state.
    ReleasedQubitNotZero(usize),
    /// The rotation angle is invalid; the IEEE-754 bit pattern is carried.
    InvalidRotationAngle(u64),
}

/// A sink for program output: a human-readable message, or a dump of the
/// machine state with one amplitude per basis state (real and imaginary
/// parts as IEEE-754 bit patterns). Reporting false means output failed.
pub trait Receiver {
    fn message(&mut self, msg: &String) -> bool;

    fn state_dump(&mut self, dump: &Vec<(u64, (u64, u64))>) -> bool;
}

/// The quantum backend: every intrinsic whose body the program does not
/// supply is dispatched here by name, with the evaluator's classical
/// generator and the output receiver. The host also supplies the one
/// floating-point operation the evaluator cannot express over bit
/// patterns itself: raising a double to a double, IEEE-754 binary64 bits
/// in and out.
pub trait Backend<R: Receiver> {
    fn call_intrinsic(
        &mut self,
        name: &String,
        arg: Value,
        rng: &mut rand::rngs::StdRng,
        out: &mut R,
    ) -> Result<Value, IntrinsicFault>;

    fn double_pow(&mut self, base: u64, exp: u64) -> u64;
}

} // verus!
