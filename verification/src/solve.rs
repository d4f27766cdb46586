//! Solving a linear constraint system.
//!
//! Equalities are processed in descending priority order (document order
//! within one priority) by exact rational substitution: each accepted
//! equality solves one variable as an affine form over still-free variables.
//! A soft equality that contradicts what stronger constraints established is
//! skipped; a `Required` contradiction is an error.  Inequalities then narrow
//! per-variable bounds; remaining free variables take the value closest to
//! zero within their bounds.  The rational solution is rounded to milli-unit
//! integers, and a final exact check confirms every `Required` constraint —
//! the solver's result is never trusted without that check.

use vstd::prelude::*;
use crate::geom::abs_i;
use crate::linear::{ConstraintSystem, LinCon, LinOp, LinTerm, check_required, con_wf,
    sat_required, sys_wf, K_BOUND, SOL_BOUND};
use crate::scene::Priority;

verus! {

/// Whether the system contains a required unit equality demanding the
/// value `q` (a constraint `v - q == 0` at `Required`): what a two-value
/// conflict report's rejected side refers to.
pub open spec fn pins_value(cons: Seq<LinCon>, q: int) -> bool {
    exists|j: int|
        0 <= j < cons.len() && ((#[trigger] cons[j]).priority == Priority::Required && cons[j].op
            == LinOp::Eq && cons[j].terms@.len() == 1 && cons[j].terms@[0].coeff == 1
            && cons[j].k == -q)
}

/// What a failed solve reports.
#[derive(Clone, Copy, Debug, PartialEq, Eq, Structural)]
pub enum ConflictInfo {
    /// Two required values for one quantity: what stronger constraints had
    /// already fixed, and what the rejected constraint demanded (milli-units).
    TwoValues { existing: i64, requested: i64 },
    /// A required constraint could not be satisfied.
    General,
    /// The numbers left the solver's working range.
    NumericRange,
}

/// A nonnegative rational with a sign flag; the denominator is at least 1.
#[derive(Clone, Copy, Debug)]
struct Rat {
    neg: bool,
    num: u128,
    den: u128,
}

/// The denominator is positive, so the rational is well defined.
spec fn rat_wf(r: Rat) -> bool {
    r.den >= 1
}

/// The greatest common divisor, or 1 when both arguments are zero.
fn gcd_u128(a: u128, b: u128) -> (g: u128)
    ensures
        g >= 1,
{
    if a == 0 && b == 0 {
        return 1;
    }
    let mut x: u128 = a;
    let mut y: u128 = b;
    while y != 0
        invariant
            x != 0 || y != 0,
        decreases y,
    {
        let r: u128 = x % y;
        x = y;
        y = r;
    }
    if x == 0 {
        1
    } else {
        x
    }
}

/// Reduces a rational by the greatest common divisor of its parts.
fn rat_norm(r: Rat) -> (s: Rat)
    requires
        rat_wf(r),
    ensures
        rat_wf(s),
{
    if r.num == 0 {
        return Rat { neg: false, num: 0, den: 1 };
    }
    let g: u128 = gcd_u128(r.num, r.den);
    let num: u128 = r.num / g;
    let den: u128 = r.den / g;
    if den == 0 {
        // Unreachable for a true divisor; kept so well-formedness is manifest.
        Rat { neg: r.neg, num: r.num, den: r.den }
    } else {
        Rat { neg: r.neg, num, den }
    }
}

fn rat_from_i64(v: i64) -> (r: Rat)
    ensures
        rat_wf(r),
{
    if v >= 0 {
        Rat { neg: false, num: v as u128, den: 1 }
    } else {
        let m: i128 = -(v as i128);
        Rat { neg: true, num: m as u128, den: 1 }
    }
}

fn rat_zero() -> (r: Rat)
    ensures
        rat_wf(r),
{
    Rat { neg: false, num: 0, den: 1 }
}

fn rat_neg(r: Rat) -> (s: Rat)
    ensures
        rat_wf(s) == rat_wf(r),
{
    if r.num == 0 {
        Rat { neg: false, num: 0, den: r.den }
    } else {
        Rat { neg: !r.neg, num: r.num, den: r.den }
    }
}

/// Adds two rationals; `None` when the numbers leave the working range.
fn rat_add(a: &Rat, b: &Rat) -> (r: Option<Rat>)
    requires
        rat_wf(*a),
        rat_wf(*b),
    ensures
        r matches Some(s) ==> rat_wf(s),
{
    let ca: u128 = match a.num.checked_mul(b.den) {
        Some(v) => v,
        None => {
            return None;
        },
    };
    let cb: u128 = match b.num.checked_mul(a.den) {
        Some(v) => v,
        None => {
            return None;
        },
    };
    let den: u128 = match a.den.checked_mul(b.den) {
        Some(v) => v,
        None => {
            return None;
        },
    };
    if den == 0 {
        return None;
    }
    if a.neg == b.neg {
        let num: u128 = match ca.checked_add(cb) {
            Some(v) => v,
            None => {
                return None;
            },
        };
        Some(rat_norm(Rat { neg: a.neg, num, den }))
    } else if ca >= cb {
        Some(rat_norm(Rat { neg: a.neg, num: ca - cb, den }))
    } else {
        Some(rat_norm(Rat { neg: b.neg, num: cb - ca, den }))
    }
}

/// Multiplies two rationals; `None` when the numbers leave the working range.
fn rat_mul(a: &Rat, b: &Rat) -> (r: Option<Rat>)
    requires
        rat_wf(*a),
        rat_wf(*b),
    ensures
        r matches Some(s) ==> rat_wf(s),
{
    let num: u128 = match a.num.checked_mul(b.num) {
        Some(v) => v,
        None => {
            return None;
        },
    };
    let den: u128 = match a.den.checked_mul(b.den) {
        Some(v) => v,
        None => {
            return None;
        },
    };
    if den == 0 {
        return None;
    }
    Some(rat_norm(Rat { neg: a.neg != b.neg, num, den }))
}

/// Divides `a` by `b`; `None` when `b` is zero or the range is left.
fn rat_div(a: &Rat, b: &Rat) -> (r: Option<Rat>)
    requires
        rat_wf(*a),
        rat_wf(*b),
    ensures
        r matches Some(s) ==> rat_wf(s),
{
    if b.num == 0 {
        return None;
    }
    let num: u128 = match a.num.checked_mul(b.den) {
        Some(v) => v,
        None => {
            return None;
        },
    };
    let den: u128 = match a.den.checked_mul(b.num) {
        Some(v) => v,
        None => {
            return None;
        },
    };
    if den == 0 {
        return None;
    }
    Some(rat_norm(Rat { neg: a.neg != b.neg, num, den }))
}

/// Whether `a <= b`; `None` when the comparison leaves the working range.
fn rat_le(a: &Rat, b: &Rat) -> (r: Option<bool>)
    requires
        rat_wf(*a),
        rat_wf(*b),
{
    if a.neg && !b.neg {
        return Some(true);
    }
    if !a.neg && b.neg {
        return Some(a.num == 0 && b.num == 0);
    }
    let ca: u128 = match a.num.checked_mul(b.den) {
        Some(v) => v,
        None => {
            return None;
        },
    };
    let cb: u128 = match b.num.checked_mul(a.den) {
        Some(v) => v,
        None => {
            return None;
        },
    };
    if !a.neg {
        Some(ca <= cb)
    } else {
        Some(cb <= ca)
    }
}

/// Rounds a rational to the nearest milli-unit integer (ties away from
/// negative infinity); `None` when the result exceeds the solution bound.
fn rat_round(r: &Rat) -> (v: Option<i64>)
    requires
        rat_wf(*r),
    ensures
        v matches Some(x) ==> abs_i(x as int) <= SOL_BOUND,
{
    let q: u128 = r.num / r.den;
    let rem: u128 = r.num % r.den;
    let up: bool = if !r.neg {
        rem <= u128::MAX / 2 && 2 * rem >= r.den
    } else {
        rem <= u128::MAX / 2 && 2 * rem > r.den
    };
    if rem > u128::MAX / 2 || r.den > u128::MAX / 2 {
        return None;
    }
    let mag: u128 = if up {
        match q.checked_add(1) {
            Some(v) => v,
            None => {
                return None;
            },
        }
    } else {
        q
    };
    if mag > SOL_BOUND as u128 {
        return None;
    }
    if r.neg {
        Some(-(mag as i64))
    } else {
        Some(mag as i64)
    }
}

/// An affine form over still-free variables: `Σ coeffᵢ · v(varᵢ) + k`.
#[derive(Clone, Debug)]
struct AffExpr {
    terms: Vec<(usize, Rat)>,
    k: Rat,
}

/// Every coefficient is well formed and every variable index is below `n`.
spec fn expr_wf(e: AffExpr, n: nat) -> bool {
    &&& rat_wf(e.k)
    &&& forall|t: int|
        0 <= t < e.terms@.len() ==> (#[trigger] e.terms@[t]).0 < n && rat_wf(e.terms@[t].1)
}

/// A constant affine form.
fn expr_const(k: Rat) -> (e: AffExpr)
    requires
        rat_wf(k),
    ensures
        expr_wf(e, 0),
        forall|n: nat| expr_wf(e, n),
{
    AffExpr { terms: Vec::new(), k }
}

/// Adds `coeff * v(var)` into the form, merging with an existing term.
fn expr_add_term(e: &mut AffExpr, var: usize, coeff: Rat, Ghost(n): Ghost<nat>) -> (ok: bool)
    requires
        expr_wf(*old(e), n),
        rat_wf(coeff),
        var < n,
    ensures
        expr_wf(*final(e), n),
{
    let len: usize = e.terms.len();
    let mut i: usize = 0;
    while i < len
        invariant
            0 <= i <= len,
            len == e.terms@.len(),
            expr_wf(*e, n),
            rat_wf(coeff),
            var < n,
        decreases len - i,
    {
        if e.terms[i].0 == var {
            let merged: Rat = match rat_add(&e.terms[i].1, &coeff) {
                Some(v) => v,
                None => {
                    return false;
                },
            };
            if merged.num == 0 {
                e.terms.remove(i);
            } else {
                e.terms.set(i, (var, merged));
            }
            return true;
        }
        i = i + 1;
    }
    if coeff.num != 0 {
        e.terms.push((var, coeff));
    }
    true
}

/// Adds `scale * src` into `dst`.
fn expr_add_scaled(dst: &mut AffExpr, src: &AffExpr, scale: Rat, Ghost(n): Ghost<nat>) -> (ok: bool)
    requires
        expr_wf(*old(dst), n),
        expr_wf(*src, n),
        rat_wf(scale),
    ensures
        expr_wf(*final(dst), n),
{
    let len: usize = src.terms.len();
    let mut i: usize = 0;
    while i < len
        invariant
            0 <= i <= len,
            len == src.terms@.len(),
            expr_wf(*dst, n),
            expr_wf(*src, n),
            rat_wf(scale),
        decreases len - i,
    {
        let (var, coeff): (usize, Rat) = src.terms[i];
        let scaled: Rat = match rat_mul(&coeff, &scale) {
            Some(v) => v,
            None => {
                return false;
            },
        };
        if !expr_add_term(dst, var, scaled, Ghost(n)) {
            return false;
        }
        i = i + 1;
    }
    let sk: Rat = match rat_mul(&src.k, &scale) {
        Some(v) => v,
        None => {
            return false;
        },
    };
    let nk: Rat = match rat_add(&dst.k, &sk) {
        Some(v) => v,
        None => {
            return false;
        },
    };
    dst.k = nk;
    true
}

/// The elimination state: per variable, either the affine form that solves
/// it over still-free variables, or `None` while it is free; and per free
/// variable, optional lower and upper bounds.
struct Elim {
    n_vars: usize,
    exprs: Vec<Option<AffExpr>>,
    lo: Vec<Option<Rat>>,
    hi: Vec<Option<Rat>>,
}

spec fn elim_wf(el: Elim) -> bool {
    &&& el.exprs@.len() == el.n_vars
    &&& el.lo@.len() == el.n_vars
    &&& el.hi@.len() == el.n_vars
    &&& forall|i: int|
        0 <= i < el.n_vars ==> match #[trigger] el.exprs@[i] {
            Some(e) => expr_wf(e, el.n_vars as nat),
            None => true,
        }
    &&& forall|i: int|
        0 <= i < el.n_vars ==> match #[trigger] el.lo@[i] {
            Some(r) => rat_wf(r),
            None => true,
        }
    &&& forall|i: int|
        0 <= i < el.n_vars ==> match #[trigger] el.hi@[i] {
            Some(r) => rat_wf(r),
            None => true,
        }
}

/// Substitutes solved variables into a constraint, yielding its residual
/// affine form over free variables.
fn residual_of(el: &Elim, c: &LinCon) -> (r: Option<AffExpr>)
    requires
        elim_wf(*el),
        con_wf(*c, el.n_vars as nat),
    ensures
        r matches Some(e) ==> expr_wf(e, el.n_vars as nat),
{
    let mut acc: AffExpr = expr_const(rat_from_i64(c.k));
    let len: usize = c.terms.len();
    let mut t: usize = 0;
    while t < len
        invariant
            0 <= t <= len,
            len == c.terms@.len(),
            elim_wf(*el),
            con_wf(*c, el.n_vars as nat),
            expr_wf(acc, el.n_vars as nat),
        decreases len - t,
    {
        let term: LinTerm = c.terms[t];
        let coeff: Rat = rat_from_i64(term.coeff);
        match &el.exprs[term.var] {
            Some(e) => {
                if !expr_add_scaled(&mut acc, e, coeff, Ghost(el.n_vars as nat)) {
                    return None;
                }
            },
            None => {
                if !expr_add_term(&mut acc, term.var, coeff, Ghost(el.n_vars as nat)) {
                    return None;
                }
            },
        }
        t = t + 1;
    }
    Some(acc)
}

/// Solves the residual's first term for its variable and substitutes the
/// result everywhere, consuming one free variable.
fn pivot(el: &mut Elim, res: &AffExpr) -> (ok: bool)
    requires
        elim_wf(*old(el)),
        expr_wf(*res, old(el).n_vars as nat),
        res.terms@.len() >= 1,
    ensures
        elim_wf(*final(el)),
        final(el).n_vars == old(el).n_vars,
{
    let (pv, pc): (usize, Rat) = res.terms[0];
    // rhs = -(rest + k) / pc
    let mut rhs: AffExpr = expr_const(rat_neg(res.k));
    let len: usize = res.terms.len();
    let mut t: usize = 1;
    while t < len
        invariant
            1 <= t <= len,
            len == res.terms@.len(),
            expr_wf(*res, el.n_vars as nat),
            expr_wf(rhs, el.n_vars as nat),
            elim_wf(*el),
            el.n_vars == old(el).n_vars,
        decreases len - t,
    {
        let (var, coeff): (usize, Rat) = res.terms[t];
        if !expr_add_term(&mut rhs, var, rat_neg(coeff), Ghost(el.n_vars as nat)) {
            return false;
        }
        t = t + 1;
    }
    // divide by the pivot coefficient
    let inv_ok: bool = scale_expr_div(&mut rhs, &pc, Ghost(el.n_vars as nat));
    if !inv_ok {
        return false;
    }
    if pv >= el.n_vars {
        return false;
    }
    // substitute the pivot into every solved form
    let n: usize = el.n_vars;
    let mut i: usize = 0;
    while i < n
        invariant
            0 <= i <= n,
            n == el.n_vars,
            elim_wf(*el),
            el.n_vars == old(el).n_vars,
            expr_wf(rhs, el.n_vars as nat),
            pv < el.n_vars,
        decreases n - i,
    {
        let replacement: Option<AffExpr> = match &el.exprs[i] {
            Some(e) => {
                if expr_mentions(e, pv) {
                    match expr_subst_copy(e, pv, &rhs, Ghost(el.n_vars as nat)) {
                        Some(ne) => Some(ne),
                        None => {
                            return false;
                        },
                    }
                } else {
                    None
                }
            },
            None => None,
        };
        match replacement {
            Some(ne) => {
                el.exprs.set(i, Some(ne));
            },
            None => {},
        }
        i = i + 1;
    }
    el.exprs.set(pv, Some(rhs));
    true
}

/// Whether the form mentions the variable.
fn expr_mentions(e: &AffExpr, var: usize) -> (b: bool) {
    let len: usize = e.terms.len();
    let mut i: usize = 0;
    while i < len
        invariant
            0 <= i <= len,
            len == e.terms@.len(),
        decreases len - i,
    {
        if e.terms[i].0 == var {
            return true;
        }
        i = i + 1;
    }
    false
}

/// Divides every part of the form by `pc` (negated: the pivot moves sides).
fn scale_expr_div(e: &mut AffExpr, pc: &Rat, Ghost(n): Ghost<nat>) -> (ok: bool)
    requires
        expr_wf(*old(e), n),
        rat_wf(*pc),
    ensures
        expr_wf(*final(e), n),
{
    let len: usize = e.terms.len();
    let mut i: usize = 0;
    while i < len
        invariant
            0 <= i <= len,
            len == e.terms@.len(),
            expr_wf(*e, n),
            rat_wf(*pc),
        decreases len - i,
    {
        let (var, coeff): (usize, Rat) = e.terms[i];
        let nc: Rat = match rat_div(&coeff, pc) {
            Some(v) => v,
            None => {
                return false;
            },
        };
        e.terms.set(i, (var, nc));
        proof {
            assert(forall|t: int|
                0 <= t < e.terms@.len() ==> (#[trigger] e.terms@[t]).0 < n && rat_wf(
                    e.terms@[t].1,
                ));
        }
        i = i + 1;
    }
    let nk: Rat = match rat_div(&e.k, pc) {
        Some(v) => v,
        None => {
            return false;
        },
    };
    e.k = nk;
    true
}

/// Handles one equality constraint: substitute, then accept (solving one
/// variable), skip (soft conflict), or report a required conflict.
fn process_eq(el: &mut Elim, c: &LinCon, required: bool) -> (r: Result<(), ConflictInfo>)
    requires
        elim_wf(*old(el)),
        con_wf(*c, old(el).n_vars as nat),
        abs_i(c.k as int) <= K_BOUND,
    ensures
        elim_wf(*final(el)),
        final(el).n_vars == old(el).n_vars,
        r matches Err(ConflictInfo::TwoValues { existing, requested }) ==> {
            &&& required
            &&& existing != requested
            &&& c.terms@.len() == 1
            &&& c.terms@[0].coeff == 1
            &&& c.k == -requested
        },
{
    let res: AffExpr = match residual_of(el, c) {
        Some(e) => e,
        None => {
            if required {
                return Err(ConflictInfo::NumericRange);
            } else {
                return Ok(());
            }
        },
    };
    if res.terms.len() == 0 {
        if res.k.num == 0 {
            return Ok(());
        }
        if !required {
            return Ok(());
        }
        // A required equality contradicts what stronger constraints fixed.
        if c.terms.len() == 1 && c.terms[0].coeff == 1 {
            let k_rat: Rat = rat_from_i64(c.k);
            let existing_rat: Option<Rat> = rat_add(&res.k, &rat_neg(k_rat));
            let existing: Option<i64> = match &existing_rat {
                Some(e) => rat_round(e),
                None => None,
            };
            match existing {
                Some(e) => {
                    let requested: i64 = -c.k;
                    if e != requested {
                        return Err(ConflictInfo::TwoValues { existing: e, requested });
                    }
                    return Err(ConflictInfo::General);
                },
                None => {
                    return Err(ConflictInfo::General);
                },
            }
        }
        return Err(ConflictInfo::General);
    }
    if res.terms.len() == 1 && !required {
        // A soft equality fixing one variable yields to recorded bounds.
        let (var, coeff): (usize, Rat) = res.terms[0];
        if var < el.n_vars {
            let cand: Option<Rat> = match rat_div(&res.k, &coeff) {
                Some(q) => Some(rat_neg(q)),
                None => None,
            };
            match cand {
                Some(v) => {
                    let lo_ok: bool = match &el.lo[var] {
                        Some(b) => match rat_le(b, &v) {
                            Some(ok) => ok,
                            None => false,
                        },
                        None => true,
                    };
                    let hi_ok: bool = match &el.hi[var] {
                        Some(b) => match rat_le(&v, b) {
                            Some(ok) => ok,
                            None => false,
                        },
                        None => true,
                    };
                    if !(lo_ok && hi_ok) {
                        return Ok(());
                    }
                },
                None => {
                    return Ok(());
                },
            }
        }
    }
    if pivot(el, &res) {
        Ok(())
    } else {
        if required {
            Err(ConflictInfo::NumericRange)
        } else {
            Ok(())
        }
    }
}

/// Handles one inequality constraint: a constant residual is checked, a
/// single-variable residual narrows that variable's bounds, and anything
/// wider is left to the final check.
fn process_ineq(el: &mut Elim, c: &LinCon, required: bool) -> (r: Result<(), ConflictInfo>)
    requires
        elim_wf(*old(el)),
        con_wf(*c, old(el).n_vars as nat),
    ensures
        elim_wf(*final(el)),
        final(el).n_vars == old(el).n_vars,
        r matches Err(ci) ==> !(ci matches ConflictInfo::TwoValues { .. }),
{
    let res: AffExpr = match residual_of(el, c) {
        Some(e) => e,
        None => {
            if required {
                return Err(ConflictInfo::NumericRange);
            } else {
                return Ok(());
            }
        },
    };
    // Normalize to `expr >= 0`.
    let ge: bool = match c.op {
        LinOp::Ge => true,
        _ => false,
    };
    if res.terms.len() == 0 {
        let holds: bool = if ge {
            !res.k.neg || res.k.num == 0
        } else {
            res.k.neg || res.k.num == 0
        };
        if holds || !required {
            return Ok(());
        }
        return Err(ConflictInfo::General);
    }
    if res.terms.len() != 1 {
        // Left to the final check.
        return Ok(());
    }
    let (var, coeff): (usize, Rat) = res.terms[0];
    if var >= el.n_vars {
        return Ok(());
    }
    // coeff * v + k >= 0  (after flipping Le):  v >= -k/coeff when coeff > 0.
    let coeff_pos_for_ge: bool = if ge {
        !coeff.neg
    } else {
        coeff.neg
    };
    let bound: Rat = match rat_div(&res.k, &coeff) {
        Some(q) => rat_neg(q),
        None => {
            if required {
                return Err(ConflictInfo::NumericRange);
            } else {
                return Ok(());
            }
        },
    };
    if coeff_pos_for_ge {
        // New lower bound.
        let better: bool = match &el.lo[var] {
            Some(old_b) => match rat_le(old_b, &bound) {
                Some(b) => b,
                None => false,
            },
            None => true,
        };
        if better {
            let fits: bool = match &el.hi[var] {
                Some(h) => match rat_le(&bound, h) {
                    Some(b) => b,
                    None => false,
                },
                None => true,
            };
            if fits {
                el.lo.set(var, Some(bound));
            } else if required {
                return Err(ConflictInfo::General);
            }
        }
    } else {
        // New upper bound.
        let better: bool = match &el.hi[var] {
            Some(old_b) => match rat_le(&bound, old_b) {
                Some(b) => b,
                None => false,
            },
            None => true,
        };
        if better {
            let fits: bool = match &el.lo[var] {
                Some(l) => match rat_le(l, &bound) {
                    Some(b) => b,
                    None => false,
                },
                None => true,
            };
            if fits {
                el.hi.set(var, Some(bound));
            } else if required {
                return Err(ConflictInfo::General);
            }
        }
    }
    Ok(())
}

/// Runs one pass over the system: the constraints of one priority, either
/// the equalities or the inequalities, in document order.
fn run_pass(el: &mut Elim, sys: &ConstraintSystem, pri: Priority, eqs: bool) -> (r: Result<
    (),
    ConflictInfo,
>)
    requires
        elim_wf(*old(el)),
        sys_wf(*sys),
        old(el).n_vars == sys.n_vars,
    ensures
        elim_wf(*final(el)),
        final(el).n_vars == old(el).n_vars,
        r matches Err(ConflictInfo::TwoValues { existing, requested }) ==> existing != requested
            && pins_value(sys.cons@, requested as int),
{
    let n: usize = sys.cons.len();
    let mut i: usize = 0;
    while i < n
        invariant
            0 <= i <= n,
            n == sys.cons@.len(),
            elim_wf(*el),
            sys_wf(*sys),
            el.n_vars == sys.n_vars,
            el.n_vars == old(el).n_vars,
        decreases n - i,
    {
        let c: &LinCon = &sys.cons[i];
        let is_eq: bool = match c.op {
            LinOp::Eq => true,
            _ => false,
        };
        if c.priority == pri && is_eq == eqs {
            let required: bool = match pri {
                Priority::Required => true,
                _ => false,
            };
            let step: Result<(), ConflictInfo> = if eqs {
                process_eq(el, c, required)
            } else {
                process_ineq(el, c, required)
            };
            match step {
                Ok(()) => {},
                Err(ci) => {
                    proof {
                        match ci {
                            ConflictInfo::TwoValues { existing, requested } => {
                                assert(sys.cons@[i as int].priority == Priority::Required);
                                assert(pins_value(sys.cons@, requested as int));
                            },
                            _ => {},
                        }
                    }
                    return Err(ci);
                },
            }
        }
        i = i + 1;
    }
    Ok(())
}

/// Picks values for the free variables (the value closest to zero within
/// their bounds), evaluates the solved forms, and rounds everything to
/// milli-unit integers.
fn assign_values(el: &Elim) -> (r: Option<Vec<i64>>)
    requires
        elim_wf(*el),
    ensures
        r matches Some(vals) ==> vals@.len() == el.n_vars && forall|j: int|
            0 <= j < vals@.len() ==> abs_i((#[trigger] vals@[j]) as int) <= SOL_BOUND,
{
    let n: usize = el.n_vars;
    // Rational values; solved variables are filled in the second pass.
    let mut rats: Vec<Rat> = Vec::new();
    let mut i: usize = 0;
    while i < n
        invariant
            0 <= i <= n,
            rats@.len() == i,
            elim_wf(*el),
            n == el.n_vars,
            forall|j: int| 0 <= j < rats@.len() ==> rat_wf(#[trigger] rats@[j]),
        decreases n - i,
    {
        let is_free: bool = match &el.exprs[i] {
            Some(_) => false,
            None => true,
        };
        if is_free {
            let zero: Rat = rat_zero();
            let above_lo: Option<Rat> = match &el.lo[i] {
                Some(l) => match rat_le(l, &zero) {
                    Some(true) => None,
                    Some(false) => Some(*l),
                    None => {
                        return None;
                    },
                },
                None => None,
            };
            let v: Rat = match above_lo {
                Some(l) => l,
                None => {
                    match &el.hi[i] {
                        Some(h) => match rat_le(&zero, h) {
                            Some(true) => zero,
                            Some(false) => *h,
                            None => {
                                return None;
                            },
                        },
                        None => zero,
                    }
                },
            };
            rats.push(v);
        } else {
            rats.push(rat_zero());
        }
        i = i + 1;
    }
    // Evaluate the solved forms over the free variables' values.
    let mut out: Vec<i64> = Vec::new();
    let mut i2: usize = 0;
    while i2 < n
        invariant
            0 <= i2 <= n,
            out@.len() == i2,
            rats@.len() == n,
            elim_wf(*el),
            n == el.n_vars,
            forall|j: int| 0 <= j < rats@.len() ==> rat_wf(#[trigger] rats@[j]),
            forall|j: int| 0 <= j < out@.len() ==> abs_i((#[trigger] out@[j]) as int) <= SOL_BOUND,
        decreases n - i2,
    {
        let val: Rat = match &el.exprs[i2] {
            Some(e) => {
                let mut acc: Rat = e.k;
                let tlen: usize = e.terms.len();
                let mut t: usize = 0;
                let mut failed: bool = false;
                while t < tlen
                    invariant
                        0 <= t <= tlen,
                        tlen == e.terms@.len(),
                        expr_wf(*e, el.n_vars as nat),
                        rats@.len() == n,
                        n == el.n_vars,
                        forall|j: int| 0 <= j < rats@.len() ==> rat_wf(#[trigger] rats@[j]),
                        rat_wf(acc),
                    decreases tlen - t,
                {
                    let (v, cf): (usize, Rat) = e.terms[t];
                    let prod: Rat = match rat_mul(&cf, &rats[v]) {
                        Some(p) => p,
                        None => {
                            failed = true;
                            Rat { neg: false, num: 0, den: 1 }
                        },
                    };
                    let sum: Rat = match rat_add(&acc, &prod) {
                        Some(s) => s,
                        None => {
                            failed = true;
                            Rat { neg: false, num: 0, den: 1 }
                        },
                    };
                    acc = sum;
                    t = t + 1;
                }
                if failed {
                    return None;
                }
                acc
            },
            None => rats[i2],
        };
        let rounded: i64 = match rat_round(&val) {
            Some(v) => v,
            None => {
                return None;
            },
        };
        out.push(rounded);
        i2 = i2 + 1;
    }
    Some(out)
}

/// Solves a constraint system.
///
/// On success the valuation assigns every variable a milli-unit value within
/// the solution bound, and — checked exactly, not assumed — satisfies every
/// `Required` constraint of the system within the rounding tolerance.  A
/// two-value conflict report carries two distinct values, of which the
/// rejected one is demanded verbatim by a required unit equality of the
/// system.  That a failure only occurs when the `Required` subset is
/// infeasible is the search's job and is not machine-checked here: it would
/// take a solution-preservation proof of the elimination itself, and the
/// scenario tests exercise it instead.
pub fn solve(sys: &ConstraintSystem) -> (r: Result<Vec<i64>, ConflictInfo>)
    requires
        sys_wf(*sys),
    ensures
        r matches Ok(vals) ==> {
            &&& vals@.len() == sys.n_vars
            &&& sat_required(sys.cons@, vals@)
            &&& forall|j: int|
                0 <= j < vals@.len() ==> abs_i((#[trigger] vals@[j]) as int) <= SOL_BOUND
        },
        r matches Err(ConflictInfo::TwoValues { existing, requested }) ==> existing != requested
            && pins_value(sys.cons@, requested as int),
{
    let n: usize = sys.n_vars;
    let mut exprs: Vec<Option<AffExpr>> = Vec::new();
    let mut lo: Vec<Option<Rat>> = Vec::new();
    let mut hi: Vec<Option<Rat>> = Vec::new();
    let mut i: usize = 0;
    while i < n
        invariant
            0 <= i <= n,
            exprs@.len() == i,
            lo@.len() == i,
            hi@.len() == i,
            forall|j: int| 0 <= j < exprs@.len() ==> (#[trigger] exprs@[j]) is None,
            forall|j: int| 0 <= j < lo@.len() ==> (#[trigger] lo@[j]) is None,
            forall|j: int| 0 <= j < hi@.len() ==> (#[trigger] hi@[j]) is None,
        decreases n - i,
    {
        exprs.push(None);
        lo.push(None);
        hi.push(None);
        i = i + 1;
    }
    let mut el: Elim = Elim { n_vars: n, exprs, lo, hi };
    let passes: [(Priority, bool); 8] = [
        (Priority::Required, true),
        (Priority::Required, false),
        (Priority::High, true),
        (Priority::High, false),
        (Priority::Medium, true),
        (Priority::Medium, false),
        (Priority::Low, true),
        (Priority::Low, false),
    ];
    let mut p: usize = 0;
    while p < 8
        invariant
            elim_wf(el),
            el.n_vars == sys.n_vars,
            sys_wf(*sys),
        decreases 8 - p,
    {
        let (pri, eqs): (Priority, bool) = passes[p];
        match run_pass(&mut el, sys, pri, eqs) {
            Ok(()) => {},
            Err(ci) => {
                return Err(ci);
            },
        }
        p = p + 1;
    }
    let vals: Vec<i64> = match assign_values(&el) {
        Some(v) => v,
        None => {
            return Err(ConflictInfo::NumericRange);
        },
    };
    if check_required(&sys.cons, &vals) {
        Ok(vals)
    } else {
        Err(ConflictInfo::General)
    }
}

/// A copy of `e` with `var` replaced by `rep`.
fn expr_subst_copy(e: &AffExpr, var: usize, rep: &AffExpr, Ghost(n): Ghost<nat>) -> (r: Option<
    AffExpr,
>)
    requires
        expr_wf(*e, n),
        expr_wf(*rep, n),
    ensures
        r matches Some(ne) ==> expr_wf(ne, n),
{
    let mut acc: AffExpr = expr_const(e.k);
    let len: usize = e.terms.len();
    let mut i: usize = 0;
    while i < len
        invariant
            0 <= i <= len,
            len == e.terms@.len(),
            expr_wf(*e, n),
            expr_wf(*rep, n),
            expr_wf(acc, n),
        decreases len - i,
    {
        let (v, c): (usize, Rat) = e.terms[i];
        if v == var {
            if !expr_add_scaled(&mut acc, rep, c, Ghost(n)) {
                return None;
            }
        } else {
            if !expr_add_term(&mut acc, v, c, Ghost(n)) {
                return None;
            }
        }
        i = i + 1;
    }
    Some(acc)
}

} // verus!
