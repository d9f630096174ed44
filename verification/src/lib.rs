//! Evaluation core for a typed functional quantum language, together with the
//! name resolver that binds identifiers in its surface syntax.
//!
//! The evaluator is an iterative, continuation-driven interpreter over a
//! lowered intermediate representation: a driver pops continuations from an
//! explicit stack, schedules sub-expressions, and fires deferred actions whose
//! operands sit on a value stack. Quantum-specific control flow (adjoint and
//! controlled functor application), closure capture, in-place array mutation,
//! and exact integer/big-integer numeric contracts are part of the core.
//!
//! Two numeric operations deserve notice. Raising a `Double` to a `Double`
//! is delegated to the host through [`host::Backend::double_pow`], IEEE-754
//! bit patterns in and out, so the evaluator itself stays free of
//! floating-point code; the contract states only that a double comes back.
//! A `BigInt` shift whose count's magnitude exceeds what a thirty-two bit
//! count can express reports `IntTooLarge` rather than materializing the
//! result (see [`binop::spec_shl`]).

use vstd::prelude::*;

pub mod arr;
pub mod ast;
pub mod big;
pub mod binop;
pub mod dbl;
pub mod decimal;
pub mod env;
pub mod error;
pub mod fir;
pub mod host;
pub mod intops;
pub mod resolve;
pub mod span;
pub mod state;
pub mod val;
pub mod visit;

verus! {

/// Composition state of functor applications on a callable value.
///
/// Applying `Adjoint` toggles `adjoint`; applying `Controlled` increments
/// `controlled`. The identity application is `{ adjoint: false, controlled: 0 }`.
#[derive(Clone, Copy, Debug, PartialEq, Eq, Structural)]
pub struct FunctorApp {
    pub adjoint: bool,
    pub controlled: u8,
}

/// A functor modifier that can be applied to a callable value.
#[derive(Clone, Copy, Debug, PartialEq, Eq, Structural)]
pub enum Functor {
    Adj,
    Ctl,
}

impl FunctorApp {
    /// The identity functor application.
    pub fn identity() -> (r: FunctorApp)
        ensures
            r.adjoint == false,
            r.controlled == 0,
    {
        FunctorApp { adjoint: false, controlled: 0 }
    }
}

/// The composition of one functor onto an existing application state.
pub open spec fn spec_update_functor_app(functor: Functor, app: FunctorApp) -> FunctorApp {
    match functor {
        Functor::Adj => FunctorApp { adjoint: !app.adjoint, controlled: app.controlled },
        Functor::Ctl => FunctorApp {
            adjoint: app.adjoint,
            controlled: vstd::wrapping::u8_specs::wrapping_add(app.controlled, 1),
        },
    }
}

/// Composes a functor onto an application state: `Adj` toggles the adjoint
/// flag, `Ctl` increments the controlled count.
pub fn update_functor_app(functor: Functor, app: FunctorApp) -> (r: FunctorApp)
    ensures
        r == spec_update_functor_app(functor, app),
{
    match functor {
        Functor::Adj => FunctorApp { adjoint: !app.adjoint, controlled: app.controlled },
        Functor::Ctl => FunctorApp {
            adjoint: app.adjoint,
            controlled: app.controlled.wrapping_add(1),
        },
    }
}

/// Applying `Adj` twice to any application state is the identity.
pub proof fn lemma_adjoint_twice_identity(app: FunctorApp)
    ensures
        spec_update_functor_app(Functor::Adj, spec_update_functor_app(Functor::Adj, app)) == app,
{
}

/// The state after applying `Ctl` a number of times in sequence.
pub open spec fn spec_apply_ctl_n(app: FunctorApp, n: nat) -> FunctorApp
    decreases n,
{
    if n == 0 {
        app
    } else {
        spec_update_functor_app(Functor::Ctl, spec_apply_ctl_n(app, (n - 1) as nat))
    }
}

/// Applying `Ctl` `n` times increments the controlled count by `n` and leaves
/// the adjoint flag unchanged, as long as the count stays within range.
pub proof fn lemma_ctl_n_increments(app: FunctorApp, n: nat)
    requires
        app.controlled + n <= 255,
    ensures
        spec_apply_ctl_n(app, n).adjoint == app.adjoint,
        spec_apply_ctl_n(app, n).controlled == app.controlled + n,
    decreases n,
{
    if n > 0 {
        lemma_ctl_n_increments(app, (n - 1) as nat);
    }
}

} // verus!
