//! Linear constraints over layout variables.
//!
//! A constraint is `Σ coeffᵢ · v(varᵢ) + k  (op)  0` at some priority, with
//! integer coefficients and a milli-unit constant.  A valuation assigns a
//! milli-unit integer to every variable.  Because the exact solution of a
//! system need not be integral, satisfaction is judged with a tolerance of
//! half a milli-unit per variable occurrence: rounding each variable of an
//! exactly-satisfied solution to the nearest integer can move the sum by at
//! most `Σ |coeffᵢ| / 2`.

use vstd::prelude::*;
use crate::geom::abs_i;
use crate::scene::Priority;

verus! {

/// One addend of a linear form: `coeff · v(var)`.
#[derive(Clone, Copy, Debug, PartialEq, Eq, Structural)]
pub struct LinTerm {
    pub var: usize,
    pub coeff: i64,
}

/// The relation of a linear constraint to zero.
#[derive(Clone, Copy, Debug, PartialEq, Eq, Structural)]
pub enum LinOp {
    Eq,
    Ge,
    Le,
}

/// A linear constraint: `Σ termᵢ + k (op) 0` at a priority.
#[derive(Clone, Debug)]
pub struct LinCon {
    pub terms: Vec<LinTerm>,
    pub k: i64,
    pub op: LinOp,
    pub priority: Priority,
}

/// A system of linear constraints over `n_vars` variables.
#[derive(Clone, Debug)]
pub struct ConstraintSystem {
    pub n_vars: usize,
    pub cons: Vec<LinCon>,
}

/// Bound on coefficients the solver works with.
pub const COEFF_BOUND: i64 = 10_000_000;

/// Bound on constraint constants (milli-units).
pub const K_BOUND: i64 = 10_000_000_000_000;

/// Bound on the values of a solution (milli-units).
pub const SOL_BOUND: i64 = 1_000_000_000_000_000;

/// Most terms a single constraint may carry.
pub const MAX_TERMS: usize = 4;

/// `Σ coeffᵢ · vals[varᵢ]` over the terms.
pub open spec fn terms_sum(terms: Seq<LinTerm>, vals: Seq<i64>) -> int
    decreases terms.len(),
{
    if terms.len() == 0 {
        0
    } else {
        terms_sum(terms.drop_last(), vals) + terms.last().coeff * vals[terms.last().var as int]
    }
}

/// `Σ |coeffᵢ|`: the tolerance scale of a constraint.
pub open spec fn terms_slack(terms: Seq<LinTerm>) -> int
    decreases terms.len(),
{
    if terms.len() == 0 {
        0
    } else {
        terms_slack(terms.drop_last()) + abs_i(terms.last().coeff as int)
    }
}

/// The value of a constraint's linear form under a valuation.
pub open spec fn con_value(c: LinCon, vals: Seq<i64>) -> int {
    terms_sum(c.terms@, vals) + c.k
}

/// Whether an integer valuation satisfies a constraint, within half a
/// milli-unit per variable occurrence.
pub open spec fn con_sat(c: LinCon, vals: Seq<i64>) -> bool {
    let s = con_value(c, vals);
    let slack = terms_slack(c.terms@);
    match c.op {
        LinOp::Eq => 2 * abs_i(s) <= slack,
        LinOp::Ge => 2 * s + slack >= 0,
        LinOp::Le => 2 * s - slack <= 0,
    }
}

/// Whether a constraint's variables and magnitudes fit the solver's
/// working range for `n_vars` variables.
pub open spec fn con_wf(c: LinCon, n_vars: nat) -> bool {
    &&& c.terms@.len() <= MAX_TERMS
    &&& forall|t: int|
        0 <= t < c.terms@.len() ==> (#[trigger] c.terms@[t]).var < n_vars && abs_i(
            c.terms@[t].coeff as int,
        ) <= COEFF_BOUND
    &&& abs_i(c.k as int) <= K_BOUND
}

/// Whether a whole system is within the solver's working range.
pub open spec fn sys_wf(s: ConstraintSystem) -> bool {
    forall|i: int| 0 <= i < s.cons@.len() ==> con_wf(#[trigger] s.cons@[i], s.n_vars as nat)
}

/// Whether a valuation satisfies every `Required` constraint of a sequence.
pub open spec fn sat_required(cons: Seq<LinCon>, vals: Seq<i64>) -> bool {
    forall|i: int|
        0 <= i < cons.len() && (#[trigger] cons[i]).priority == Priority::Required ==> con_sat(
            cons[i],
            vals,
        )
}

/// Evaluates a constraint's linear form exactly.
fn eval_con(c: &LinCon, vals: &Vec<i64>) -> (s: i128)
    requires
        con_wf(*c, vals@.len() as nat),
        forall|j: int| 0 <= j < vals@.len() ==> abs_i((#[trigger] vals@[j]) as int) <= SOL_BOUND,
    ensures
        s == con_value(*c, vals@),
        abs_i(s as int) <= 4 * COEFF_BOUND * SOL_BOUND + K_BOUND,
{
    let n: usize = c.terms.len();
    let mut acc: i128 = 0;
    let mut t: usize = 0;
    while t < n
        invariant
            0 <= t <= n,
            n == c.terms@.len(),
            con_wf(*c, vals@.len() as nat),
            forall|j: int| 0 <= j < vals@.len() ==> abs_i((#[trigger] vals@[j]) as int) <= SOL_BOUND,
            acc == terms_sum(c.terms@.subrange(0, t as int), vals@),
            abs_i(acc as int) <= (t as int) * COEFF_BOUND * SOL_BOUND,
        decreases n - t,
    {
        let term: LinTerm = c.terms[t];
        proof {
            assert(abs_i(term.coeff as int * vals@[term.var as int] as int) <= COEFF_BOUND
                * SOL_BOUND) by (nonlinear_arith)
                requires
                    abs_i(term.coeff as int) <= COEFF_BOUND,
                    abs_i(vals@[term.var as int] as int) <= SOL_BOUND,
            ;
            assert((t + 1) * COEFF_BOUND * SOL_BOUND == t * COEFF_BOUND * SOL_BOUND + COEFF_BOUND
                * SOL_BOUND) by (nonlinear_arith);
            assert(c.terms@.subrange(0, t + 1).drop_last() =~= c.terms@.subrange(0, t as int));
        }
        acc = acc + (term.coeff as i128) * (vals[term.var] as i128);
        t = t + 1;
        proof {
            assert((t as int) * COEFF_BOUND * SOL_BOUND <= 4 * COEFF_BOUND * SOL_BOUND)
                by (nonlinear_arith)
                requires
                    t <= 4,
            ;
        }
    }
    proof {
        assert(c.terms@.subrange(0, n as int) =~= c.terms@);
    }
    acc + (c.k as i128)
}

/// Computes a constraint's tolerance scale `Σ |coeffᵢ|`.
fn eval_slack(c: &LinCon) -> (s: i64)
    requires
        c.terms@.len() <= MAX_TERMS,
        forall|t: int|
            0 <= t < c.terms@.len() ==> abs_i((#[trigger] c.terms@[t]).coeff as int) <= COEFF_BOUND,
    ensures
        s == terms_slack(c.terms@),
        0 <= s <= 4 * COEFF_BOUND,
{
    let n: usize = c.terms.len();
    let mut acc: i64 = 0;
    let mut t: usize = 0;
    while t < n
        invariant
            0 <= t <= n,
            n == c.terms@.len(),
            n <= MAX_TERMS,
            forall|j: int|
                0 <= j < c.terms@.len() ==> abs_i((#[trigger] c.terms@[j]).coeff as int)
                    <= COEFF_BOUND,
            acc == terms_slack(c.terms@.subrange(0, t as int)),
            0 <= acc <= (t as int) * COEFF_BOUND,
        decreases n - t,
    {
        let coeff: i64 = c.terms[t].coeff;
        proof {
            assert(c.terms@.subrange(0, t + 1).drop_last() =~= c.terms@.subrange(0, t as int));
        }
        acc = acc + (if coeff >= 0 { coeff } else { -coeff });
        t = t + 1;
    }
    proof {
        assert(c.terms@.subrange(0, n as int) =~= c.terms@);
    }
    acc
}

/// Decides whether a valuation satisfies a constraint.
pub fn check_con(c: &LinCon, vals: &Vec<i64>) -> (b: bool)
    requires
        con_wf(*c, vals@.len() as nat),
        forall|j: int| 0 <= j < vals@.len() ==> abs_i((#[trigger] vals@[j]) as int) <= SOL_BOUND,
    ensures
        b == con_sat(*c, vals@),
{
    let s: i128 = eval_con(c, vals);
    let slack: i64 = eval_slack(c);
    match c.op {
        LinOp::Eq => {
            let a: i128 = if s >= 0 { s } else { -s };
            2 * a <= slack as i128
        },
        LinOp::Ge => 2 * s + (slack as i128) >= 0,
        LinOp::Le => 2 * s - (slack as i128) <= 0,
    }
}

/// Decides whether a valuation satisfies every `Required` constraint.
pub fn check_required(cons: &Vec<LinCon>, vals: &Vec<i64>) -> (b: bool)
    requires
        forall|i: int| 0 <= i < cons@.len() ==> con_wf(#[trigger] cons@[i], vals@.len() as nat),
        forall|j: int| 0 <= j < vals@.len() ==> abs_i((#[trigger] vals@[j]) as int) <= SOL_BOUND,
    ensures
        b == sat_required(cons@, vals@),
{
    let n: usize = cons.len();
    let mut i: usize = 0;
    while i < n
        invariant
            0 <= i <= n,
            n == cons@.len(),
            forall|j: int| 0 <= j < cons@.len() ==> con_wf(#[trigger] cons@[j], vals@.len() as nat),
            forall|j: int| 0 <= j < vals@.len() ==> abs_i((#[trigger] vals@[j]) as int) <= SOL_BOUND,
            forall|j: int|
                0 <= j < i && (#[trigger] cons@[j]).priority == Priority::Required ==> con_sat(
                    cons@[j],
                    vals@,
                ),
        decreases n - i,
    {
        let is_required: bool = match cons[i].priority {
            Priority::Required => true,
            _ => false,
        };
        if is_required {
            if !check_con(&cons[i], vals) {
                return false;
            }
        }
        i = i + 1;
    }
    true
}

} // verus!
