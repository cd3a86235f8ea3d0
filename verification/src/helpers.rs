//! The template helpers' registered names, and the arithmetic core of the
//! range helper.

use vstd::prelude::*;

verus! {

/// The concatenation helper.
pub struct ConcatHelper {}

impl ConcatHelper {
    /// The name the helper registers under.
    pub fn name() -> (r: &'static str)
        ensures
            r@ == "concat"@,
    {
        "concat"
    }
}

/// The equality helper.
pub struct EqHelper {}

impl EqHelper {
    /// The name the helper registers under.
    pub fn name() -> (r: &'static str)
        ensures
            r@ == "eq"@,
    {
        "eq"
    }
}

/// The range helper.
pub struct RangeHelper {}

impl RangeHelper {
    /// The name the helper registers under.
    pub fn name() -> (r: &'static str)
        ensures
            r@ == "range"@,
    {
        "range"
    }
}

/// The values the range helper renders: `starting`, then each step of
/// `increment` more, strictly below `terminator`; empty when `starting`
/// is not below `terminator`. A non-positive increment and a walk past
/// the integer range are caller errors.
pub fn range_values(starting: i64, increment: i64, terminator: i64) -> (r: Vec<i64>)
    requires
        increment > 0,
        terminator <= i64::MAX - increment,
    ensures
        forall|k: int| 0 <= k < r@.len() ==> #[trigger] r@[k] == starting + k * increment,
        r@.len() == 0 <==> starting >= terminator,
        r@.len() > 0 ==> starting + (r@.len() - 1) * increment < terminator,
        starting < terminator ==> starting + r@.len() * increment >= terminator,
{
    let mut out: Vec<i64> = Vec::new();
    let mut current = starting;
    if starting >= terminator {
        return out;
    }
    proof {
        assert(out@.len() * increment == 0) by (nonlinear_arith)
            requires
                out@.len() == 0,
        ;
    }
    while current < terminator
        invariant
            increment > 0,
            terminator <= i64::MAX - increment,
            starting < terminator,
            current == starting + out@.len() * increment,
            current <= terminator + increment - 1,
            forall|k: int| 0 <= k < out@.len() ==> #[trigger] out@[k] == starting + k * increment,
            out@.len() > 0 ==> starting + (out@.len() - 1) * increment < terminator,
            out@.len() == 0 ==> current == starting,
        decreases terminator + increment - current,
    {
        out.push(current);
        proof {
            let n = out@.len() - 1;
            assert(starting + n * increment + increment == starting + (n + 1) * increment)
                by (nonlinear_arith);
        }
        current = current + increment;
    }
    out
}

} // verus!
