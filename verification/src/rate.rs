//! Compounding conventions of interest rates.
use vstd::prelude::*;

verus! {

/// How an annual rate `r` grows a unit over a year fraction `t`: `exp(r t)` when
/// continuous, `1 + r t` when simple, `(1 + r)^t` when exponential.
#[derive(Clone, Copy, Debug, PartialEq, Eq, Hash, Structural)]
pub enum Compounding {
    Continuous,
    Simple,
    Exponential,
}

} // verus!
