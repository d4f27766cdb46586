//! Lowering a scene to a linear constraint system.
//!
//! Each node `i` — and the canvas, which takes the slot after the last node —
//! owns eight variables: `x, y, w, h, cx, cy, right, bottom`.  Lowering emits,
//! at `Required` strength, the canvas's fixed frame, the defining identities
//! `cx = x + w/2`, `cy = y + h/2`, `right = x + w`, `bottom = y + h` and the
//! nonnegativity of `w` and `h` for every slot; then each node's own
//! constraints, translated by the table below, followed by its intrinsic
//! size at `Medium` strength (so an explicit size at equal or higher strength
//! outranks the content size); and finally the implicit constraints of the
//! stack containers.
//!
//! Targets are resolved by id against the scene's name table; the id
//! `canvas`, or an absent target, denotes the canvas slot.  A constraint
//! whose target resolves to no node fails the lowering with
//! `ElementNotFound`; a baseline alignment fails it with
//! `InvalidConstraint`, since the solver has no baseline metric.

use vstd::prelude::*;
use vstd::string::StrSliceExecFns;
use crate::geom::abs_i;
use crate::linear::{ConstraintSystem, LinCon, LinOp, LinTerm, con_wf, sys_wf, COEFF_BOUND,
    K_BOUND, MAX_TERMS};
use crate::scene::{Alignment, Constraint, ConstraintType, Distribution, ElementId, Node, NodeKind,
    Priority, Scene, constraint_wf, node_wf, scene_wf, LENGTH_BOUND, RATIO_BOUND};

verus! {

/// Why a scene could not be lowered.
#[derive(Clone, Debug)]
pub enum LowerError {
    /// A constraint targets this id, and no node carries it.
    ElementNotFound(ElementId),
    /// The node with this id carries a constraint the solver cannot lower
    /// (baseline alignment).
    InvalidConstraint(ElementId),
}

/// The per-mille scale of ratios, as used in coefficient positions.
pub const RATIO_SCALE: i64 = 1000;

/// The variable indices of slot `i` (a node index, or the node count for
/// the canvas).
pub open spec fn vx(i: int) -> int {
    8 * i
}

pub open spec fn vy(i: int) -> int {
    8 * i + 1
}

pub open spec fn vw(i: int) -> int {
    8 * i + 2
}

pub open spec fn vh(i: int) -> int {
    8 * i + 3
}

pub open spec fn vcx(i: int) -> int {
    8 * i + 4
}

pub open spec fn vcy(i: int) -> int {
    8 * i + 5
}

pub open spec fn vright(i: int) -> int {
    8 * i + 6
}

pub open spec fn vbottom(i: int) -> int {
    8 * i + 7
}

/// Whether constraint `c` has exactly the given terms, constant, relation
/// and priority.
pub open spec fn con_matches(
    c: LinCon,
    terms: Seq<(int, int)>,
    k: int,
    op: LinOp,
    p: Priority,
) -> bool {
    &&& c.k == k
    &&& c.op == op
    &&& c.priority == p
    &&& c.terms@.len() == terms.len()
    &&& forall|t: int|
        0 <= t < terms.len() ==> (#[trigger] c.terms@[t]).var == terms[t].0 && c.terms@[t].coeff
            == terms[t].1
}

/// Whether the system contains a constraint of exactly this shape.
pub open spec fn has_shape(
    cons: Seq<LinCon>,
    terms: Seq<(int, int)>,
    k: int,
    op: LinOp,
    p: Priority,
) -> bool {
    exists|j: int| 0 <= j < cons.len() && con_matches(#[trigger] cons[j], terms, k, op, p)
}

/// A shape present in a system stays present in any extension of it.
pub proof fn lemma_has_shape_mono(
    pre: Seq<LinCon>,
    post: Seq<LinCon>,
    terms: Seq<(int, int)>,
    k: int,
    op: LinOp,
    p: Priority,
)
    requires
        pre.len() <= post.len(),
        forall|j: int| 0 <= j < pre.len() ==> post[j] == pre[j],
        has_shape(pre, terms, k, op, p),
    ensures
        has_shape(post, terms, k, op, p),
{
    let j = choose|j: int| 0 <= j < pre.len() && con_matches(#[trigger] pre[j], terms, k, op, p);
    assert(con_matches(post[j], terms, k, op, p));
}

/// One sequence of constraints extends another.
pub open spec fn extends(pre: Seq<LinCon>, post: Seq<LinCon>) -> bool {
    pre.len() <= post.len() && forall|j: int| 0 <= j < pre.len() ==> post[j] == pre[j]
}

/// Appends `coeff * v(var) + k (op) 0`.
fn push_con1(cons: &mut Vec<LinCon>, v: usize, c: i64, k: i64, op: LinOp, p: Priority, Ghost(
    nv,
): Ghost<nat>)
    requires
        v < nv,
        abs_i(c as int) <= COEFF_BOUND,
        abs_i(k as int) <= K_BOUND,
    ensures
        extends(old(cons)@, final(cons)@),
        final(cons)@.len() == old(cons)@.len() + 1,
        con_matches(final(cons)@.last(), seq![(v as int, c as int)], k as int, op, p),
        con_wf(final(cons)@.last(), nv),
{
    let terms: Vec<LinTerm> = vec![LinTerm { var: v, coeff: c }];
    let con: LinCon = LinCon { terms, k, op, priority: p };
    cons.push(con);
}

/// Appends `c1 * v(v1) + c2 * v(v2) + k (op) 0`.
fn push_con2(
    cons: &mut Vec<LinCon>,
    v1: usize,
    c1: i64,
    v2: usize,
    c2: i64,
    k: i64,
    op: LinOp,
    p: Priority,
    Ghost(nv): Ghost<nat>,
)
    requires
        v1 < nv,
        v2 < nv,
        abs_i(c1 as int) <= COEFF_BOUND,
        abs_i(c2 as int) <= COEFF_BOUND,
        abs_i(k as int) <= K_BOUND,
    ensures
        extends(old(cons)@, final(cons)@),
        final(cons)@.len() == old(cons)@.len() + 1,
        con_matches(
            final(cons)@.last(),
            seq![(v1 as int, c1 as int), (v2 as int, c2 as int)],
            k as int,
            op,
            p,
        ),
        con_wf(final(cons)@.last(), nv),
{
    let terms: Vec<LinTerm> = vec![
        LinTerm { var: v1, coeff: c1 },
        LinTerm { var: v2, coeff: c2 },
    ];
    let con: LinCon = LinCon { terms, k, op, priority: p };
    cons.push(con);
}

/// Appends `c1 * v(v1) + c2 * v(v2) + c3 * v(v3) + k (op) 0`.
fn push_con3(
    cons: &mut Vec<LinCon>,
    v1: usize,
    c1: i64,
    v2: usize,
    c2: i64,
    v3: usize,
    c3: i64,
    k: i64,
    op: LinOp,
    p: Priority,
    Ghost(nv): Ghost<nat>,
)
    requires
        v1 < nv,
        v2 < nv,
        v3 < nv,
        abs_i(c1 as int) <= COEFF_BOUND,
        abs_i(c2 as int) <= COEFF_BOUND,
        abs_i(c3 as int) <= COEFF_BOUND,
        abs_i(k as int) <= K_BOUND,
    ensures
        extends(old(cons)@, final(cons)@),
        final(cons)@.len() == old(cons)@.len() + 1,
        con_matches(
            final(cons)@.last(),
            seq![(v1 as int, c1 as int), (v2 as int, c2 as int), (v3 as int, c3 as int)],
            k as int,
            op,
            p,
        ),
        con_wf(final(cons)@.last(), nv),
{
    let terms: Vec<LinTerm> = vec![
        LinTerm { var: v1, coeff: c1 },
        LinTerm { var: v2, coeff: c2 },
        LinTerm { var: v3, coeff: c3 },
    ];
    let con: LinCon = LinCon { terms, k, op, priority: p };
    cons.push(con);
}

/// The first node carrying this id, if any.
pub open spec fn spec_resolve_from(nodes: Seq<Node>, id: Seq<char>, from: int) -> Option<int>
    decreases nodes.len() - from,
{
    if from < 0 || from >= nodes.len() {
        None
    } else if nodes[from].id@ == id {
        Some(from)
    } else {
        spec_resolve_from(nodes, id, from + 1)
    }
}

/// The slot an optional target denotes: the canvas slot for an absent
/// target or the id `canvas`, else the first node with the id.
pub open spec fn spec_target_slot(s: Scene, target: Option<ElementId>) -> Option<int> {
    match target {
        Option::None => Some(s.nodes@.len() as int),
        Option::Some(id) => if id@ == "canvas"@ {
            Some(s.nodes@.len() as int)
        } else {
            spec_resolve_from(s.nodes@, id@, 0)
        },
    }
}

/// Whether a single constraint can be lowered against this scene.
pub open spec fn ctype_ok(s: Scene, ct: ConstraintType) -> bool {
    match ct {
        ConstraintType::Top { target, .. } => spec_target_slot(s, target) is Some,
        ConstraintType::Bottom { target, .. } => spec_target_slot(s, target) is Some,
        ConstraintType::Leading { target, .. } => spec_target_slot(s, target) is Some,
        ConstraintType::Trailing { target, .. } => spec_target_slot(s, target) is Some,
        ConstraintType::CenterX { target, .. } => spec_target_slot(s, target) is Some,
        ConstraintType::CenterY { target, .. } => spec_target_slot(s, target) is Some,
        ConstraintType::Width { value, target, .. } => match value {
            Option::Some(_) => true,
            Option::None => match target {
                Option::Some(_) => spec_target_slot(s, target) is Some,
                Option::None => true,
            },
        },
        ConstraintType::Height { value, target, .. } => match value {
            Option::Some(_) => true,
            Option::None => match target {
                Option::Some(_) => spec_target_slot(s, target) is Some,
                Option::None => true,
            },
        },
        ConstraintType::AspectRatio { .. } => true,
        ConstraintType::MinWidth { .. } => true,
        ConstraintType::MaxWidth { .. } => true,
        ConstraintType::MinHeight { .. } => true,
        ConstraintType::MaxHeight { .. } => true,
        ConstraintType::AlignTop { target } => spec_target_slot(s, Some(target)) is Some,
        ConstraintType::AlignBottom { target } => spec_target_slot(s, Some(target)) is Some,
        ConstraintType::AlignLeading { target } => spec_target_slot(s, Some(target)) is Some,
        ConstraintType::AlignTrailing { target } => spec_target_slot(s, Some(target)) is Some,
        ConstraintType::AlignBaseline { .. } => false,
    }
}

/// Whether every constraint of the scene can be lowered.
pub open spec fn scene_lowerable(s: Scene) -> bool {
    forall|i: int, j: int|
        0 <= i < s.nodes@.len() && 0 <= j < s.nodes@[i].constraints@.len() ==> ctype_ok(
            s,
            (#[trigger] s.nodes@[i].constraints@[j]).constraint_type,
        )
}

/// Whether the node has an explicit fixed width at `Required` strength.
pub open spec fn has_required_width(n: Node) -> bool {
    exists|j: int|
        0 <= j < n.constraints@.len() && (#[trigger] n.constraints@[j]).priority
            == Priority::Required && (n.constraints@[j].constraint_type matches
        ConstraintType::Width { value: Option::Some(_), .. })
}

/// Whether the node has an explicit fixed height at `Required` strength.
pub open spec fn has_required_height(n: Node) -> bool {
    exists|j: int|
        0 <= j < n.constraints@.len() && (#[trigger] n.constraints@[j]).priority
            == Priority::Required && (n.constraints@[j].constraint_type matches
        ConstraintType::Height { value: Option::Some(_), .. })
}

/// The canvas's fixed frame: `x = 0`, `y = 0`, `w = W`, `h = H`, required.
pub open spec fn canvas_facts(s: Scene, cons: Seq<LinCon>) -> bool {
    let L = s.nodes@.len() as int;
    &&& has_shape(cons, seq![(vx(L), 1)], 0, LinOp::Eq, Priority::Required)
    &&& has_shape(cons, seq![(vy(L), 1)], 0, LinOp::Eq, Priority::Required)
    &&& has_shape(cons, seq![(vw(L), 1)], -(s.canvas.width as int), LinOp::Eq, Priority::Required)
    &&& has_shape(cons, seq![(vh(L), 1)], -(s.canvas.height as int), LinOp::Eq, Priority::Required)
}

/// The defining identities and size nonnegativity of one slot:
/// `2cx = 2x + w`, `2cy = 2y + h`, `right = x + w`, `bottom = y + h`,
/// `w >= 0`, `h >= 0`, all required.
pub open spec fn slot_facts(cons: Seq<LinCon>, i: int) -> bool {
    &&& has_shape(
        cons,
        seq![(vcx(i), 2), (vx(i), -2), (vw(i), -1)],
        0,
        LinOp::Eq,
        Priority::Required,
    )
    &&& has_shape(
        cons,
        seq![(vcy(i), 2), (vy(i), -2), (vh(i), -1)],
        0,
        LinOp::Eq,
        Priority::Required,
    )
    &&& has_shape(
        cons,
        seq![(vright(i), 1), (vx(i), -1), (vw(i), -1)],
        0,
        LinOp::Eq,
        Priority::Required,
    )
    &&& has_shape(
        cons,
        seq![(vbottom(i), 1), (vy(i), -1), (vh(i), -1)],
        0,
        LinOp::Eq,
        Priority::Required,
    )
    &&& has_shape(cons, seq![(vw(i), 1)], 0, LinOp::Ge, Priority::Required)
    &&& has_shape(cons, seq![(vh(i), 1)], 0, LinOp::Ge, Priority::Required)
}

/// The lowering of one user constraint of node `i`, per the table:
/// each arm states the linear shape the system must contain.
pub open spec fn user_fact(s: Scene, cons: Seq<LinCon>, i: int, c: Constraint) -> bool {
    let p = c.priority;
    match c.constraint_type {
        ConstraintType::Top { target, value } => {
            match spec_target_slot(s, target) {
                Some(t) => {
                    let tv = if t == s.nodes@.len() as int { vy(t) } else { vbottom(t) };
                    has_shape(cons, seq![(vy(i), 1), (tv, -1)], -(value as int), LinOp::Eq, p)
                },
                Option::None => true,
            }
        },
        ConstraintType::Bottom { target, value } => {
            match spec_target_slot(s, target) {
                Some(t) => {
                    let tv = if t == s.nodes@.len() as int { vbottom(t) } else { vy(t) };
                    has_shape(cons, seq![(vbottom(i), 1), (tv, -1)], value as int, LinOp::Eq, p)
                },
                Option::None => true,
            }
        },
        ConstraintType::Leading { target, value } => {
            match spec_target_slot(s, target) {
                Some(t) => {
                    let tv = if t == s.nodes@.len() as int { vx(t) } else { vright(t) };
                    has_shape(cons, seq![(vx(i), 1), (tv, -1)], -(value as int), LinOp::Eq, p)
                },
                Option::None => true,
            }
        },
        ConstraintType::Trailing { target, value } => {
            match spec_target_slot(s, target) {
                Some(t) => {
                    let tv = if t == s.nodes@.len() as int { vright(t) } else { vx(t) };
                    has_shape(cons, seq![(vright(i), 1), (tv, -1)], value as int, LinOp::Eq, p)
                },
                Option::None => true,
            }
        },
        ConstraintType::CenterX { target, offset } => {
            match spec_target_slot(s, target) {
                Some(t) => has_shape(
                    cons,
                    seq![(vcx(i), 1), (vcx(t), -1)],
                    -(offset as int),
                    LinOp::Eq,
                    p,
                ),
                Option::None => true,
            }
        },
        ConstraintType::CenterY { target, offset } => {
            match spec_target_slot(s, target) {
                Some(t) => has_shape(
                    cons,
                    seq![(vcy(i), 1), (vcy(t), -1)],
                    -(offset as int),
                    LinOp::Eq,
                    p,
                ),
                Option::None => true,
            }
        },
        ConstraintType::Width { value, target, multiplier, percent } => {
            match value {
                Some(v) => has_shape(cons, seq![(vw(i), 1)], -(v as int), LinOp::Eq, p),
                Option::None => {
                    match target {
                        Some(_) => {
                            match spec_target_slot(s, target) {
                                Some(t) => {
                                    let m = match percent {
                                        Some(pc) => pc as int,
                                        Option::None => multiplier as int,
                                    };
                                    has_shape(
                                        cons,
                                        seq![(vw(i), RATIO_SCALE as int), (vw(t), -m)],
                                        0,
                                        LinOp::Eq,
                                        p,
                                    )
                                },
                                Option::None => true,
                            }
                        },
                        Option::None => true,
                    }
                },
            }
        },
        ConstraintType::Height { value, target, multiplier, percent } => {
            match value {
                Some(v) => has_shape(cons, seq![(vh(i), 1)], -(v as int), LinOp::Eq, p),
                Option::None => {
                    match target {
                        Some(_) => {
                            match spec_target_slot(s, target) {
                                Some(t) => {
                                    let m = match percent {
                                        Some(pc) => pc as int,
                                        Option::None => multiplier as int,
                                    };
                                    has_shape(
                                        cons,
                                        seq![(vh(i), RATIO_SCALE as int), (vh(t), -m)],
                                        0,
                                        LinOp::Eq,
                                        p,
                                    )
                                },
                                Option::None => true,
                            }
                        },
                        Option::None => true,
                    }
                },
            }
        },
        ConstraintType::AspectRatio { ratio } => has_shape(
            cons,
            seq![(vw(i), RATIO_SCALE as int), (vh(i), -(ratio as int))],
            0,
            LinOp::Eq,
            p,
        ),
        ConstraintType::MinWidth { value } => has_shape(
            cons,
            seq![(vw(i), 1)],
            -(value as int),
            LinOp::Ge,
            p,
        ),
        ConstraintType::MaxWidth { value } => has_shape(
            cons,
            seq![(vw(i), 1)],
            -(value as int),
            LinOp::Le,
            p,
        ),
        ConstraintType::MinHeight { value } => has_shape(
            cons,
            seq![(vh(i), 1)],
            -(value as int),
            LinOp::Ge,
            p,
        ),
        ConstraintType::MaxHeight { value } => has_shape(
            cons,
            seq![(vh(i), 1)],
            -(value as int),
            LinOp::Le,
            p,
        ),
        ConstraintType::AlignTop { target } => {
            match spec_target_slot(s, Some(target)) {
                Some(t) => has_shape(cons, seq![(vy(i), 1), (vy(t), -1)], 0, LinOp::Eq, p),
                Option::None => true,
            }
        },
        ConstraintType::AlignBottom { target } => {
            match spec_target_slot(s, Some(target)) {
                Some(t) => has_shape(
                    cons,
                    seq![(vbottom(i), 1), (vbottom(t), -1)],
                    0,
                    LinOp::Eq,
                    p,
                ),
                Option::None => true,
            }
        },
        ConstraintType::AlignLeading { target } => {
            match spec_target_slot(s, Some(target)) {
                Some(t) => has_shape(cons, seq![(vx(i), 1), (vx(t), -1)], 0, LinOp::Eq, p),
                Option::None => true,
            }
        },
        ConstraintType::AlignTrailing { target } => {
            match spec_target_slot(s, Some(target)) {
                Some(t) => has_shape(
                    cons,
                    seq![(vright(i), 1), (vright(t), -1)],
                    0,
                    LinOp::Eq,
                    p,
                ),
                Option::None => true,
            }
        },
        ConstraintType::AlignBaseline { .. } => true,
    }
}

/// The intrinsic-size constraints of node `i`: for each axis without an
/// explicit `Required` size, the measured length at `Medium` strength.
pub open spec fn intrinsic_fact(
    s: Scene,
    intr: Seq<Option<(i64, i64)>>,
    cons: Seq<LinCon>,
    i: int,
) -> bool {
    match intr[i] {
        Some(wh) => {
            &&& (!has_required_width(s.nodes@[i]) ==> has_shape(
                cons,
                seq![(vw(i), 1)],
                -(wh.0 as int),
                LinOp::Eq,
                Priority::Medium,
            ))
            &&& (!has_required_height(s.nodes@[i]) ==> has_shape(
                cons,
                seq![(vh(i), 1)],
                -(wh.1 as int),
                LinOp::Eq,
                Priority::Medium,
            ))
        },
        Option::None => true,
    }
}

/// The cross-axis alignment of one stack child on the horizontal axis.
pub open spec fn valign_fact(cons: Seq<LinCon>, i: int, c: int, a: Alignment) -> bool {
    match a {
        Alignment::Leading => has_shape(
            cons,
            seq![(vx(c), 1), (vx(i), -1)],
            0,
            LinOp::Eq,
            Priority::Required,
        ),
        Alignment::Center => has_shape(
            cons,
            seq![(vcx(c), 1), (vcx(i), -1)],
            0,
            LinOp::Eq,
            Priority::Required,
        ),
        Alignment::Trailing => has_shape(
            cons,
            seq![(vright(c), 1), (vright(i), -1)],
            0,
            LinOp::Eq,
            Priority::Required,
        ),
        _ => true,
    }
}

/// The cross-axis alignment of one stack child on the vertical axis.
pub open spec fn halign_fact(cons: Seq<LinCon>, i: int, c: int, a: Alignment) -> bool {
    match a {
        Alignment::Top => has_shape(
            cons,
            seq![(vy(c), 1), (vy(i), -1)],
            0,
            LinOp::Eq,
            Priority::Required,
        ),
        Alignment::Center => has_shape(
            cons,
            seq![(vcy(c), 1), (vcy(i), -1)],
            0,
            LinOp::Eq,
            Priority::Required,
        ),
        Alignment::Bottom => has_shape(
            cons,
            seq![(vbottom(c), 1), (vbottom(i), -1)],
            0,
            LinOp::Eq,
            Priority::Required,
        ),
        _ => true,
    }
}

/// A spacer child's main-axis length: at least its minimum (required), and
/// equal to it at the spacer's own priority, so it stretches only when the
/// stack needs the slack.
pub open spec fn spacer_fact(s: Scene, cons: Seq<LinCon>, c: int, axis_w: bool) -> bool {
    match s.nodes@[c].kind {
        NodeKind::Spacer { min_length, priority } => {
            let v = if axis_w { vw(c) } else { vh(c) };
            &&& has_shape(cons, seq![(v, 1)], -(min_length as int), LinOp::Ge, Priority::Required)
            &&& has_shape(cons, seq![(v, 1)], -(min_length as int), LinOp::Eq, priority)
        },
        _ => true,
    }
}

/// The implicit constraints of a vertical stack over its children: the
/// chain `y(c[0]) = y`, `y(c[k]) = bottom(c[k-1]) + spacing`, the cross-axis
/// alignment, the derived height `h = bottom(last) - y`, spacer minimums,
/// and — for `FillEqually` — equal child heights at `Medium`.
pub open spec fn vstack_facts(
    s: Scene,
    cons: Seq<LinCon>,
    i: int,
    ch: Seq<usize>,
    spacing: int,
    alignment: Alignment,
    distribution: Distribution,
) -> bool {
    &&& has_shape(
        cons,
        seq![(vy(ch[0] as int), 1), (vy(i), -1)],
        0,
        LinOp::Eq,
        Priority::Required,
    )
    &&& forall|k: int|
        1 <= k < ch.len() ==> has_shape(
            cons,
            seq![(vy((#[trigger] ch[k]) as int), 1), (vbottom(ch[k - 1] as int), -1)],
            -spacing,
            LinOp::Eq,
            Priority::Required,
        )
    &&& forall|k: int| 0 <= k < ch.len() ==> valign_fact(cons, i, (#[trigger] ch[k]) as int, alignment)
    &&& has_shape(
        cons,
        seq![(vh(i), 1), (vbottom(ch[ch.len() - 1] as int), -1), (vy(i), 1)],
        0,
        LinOp::Eq,
        Priority::Required,
    )
    &&& forall|k: int| 0 <= k < ch.len() ==> spacer_fact(s, cons, (#[trigger] ch[k]) as int, false)
    &&& (distribution == Distribution::FillEqually ==> forall|k: int|
        1 <= k < ch.len() ==> has_shape(
            cons,
            seq![(vh((#[trigger] ch[k]) as int), 1), (vh(ch[k - 1] as int), -1)],
            0,
            LinOp::Eq,
            Priority::Medium,
        ))
}

/// The implicit constraints of a horizontal stack, the mirror image of
/// [`vstack_facts`].
pub open spec fn hstack_facts(
    s: Scene,
    cons: Seq<LinCon>,
    i: int,
    ch: Seq<usize>,
    spacing: int,
    alignment: Alignment,
    distribution: Distribution,
) -> bool {
    &&& has_shape(
        cons,
        seq![(vx(ch[0] as int), 1), (vx(i), -1)],
        0,
        LinOp::Eq,
        Priority::Required,
    )
    &&& forall|k: int|
        1 <= k < ch.len() ==> has_shape(
            cons,
            seq![(vx((#[trigger] ch[k]) as int), 1), (vright(ch[k - 1] as int), -1)],
            -spacing,
            LinOp::Eq,
            Priority::Required,
        )
    &&& forall|k: int| 0 <= k < ch.len() ==> halign_fact(cons, i, (#[trigger] ch[k]) as int, alignment)
    &&& has_shape(
        cons,
        seq![(vw(i), 1), (vright(ch[ch.len() - 1] as int), -1), (vx(i), 1)],
        0,
        LinOp::Eq,
        Priority::Required,
    )
    &&& forall|k: int| 0 <= k < ch.len() ==> spacer_fact(s, cons, (#[trigger] ch[k]) as int, true)
    &&& (distribution == Distribution::FillEqually ==> forall|k: int|
        1 <= k < ch.len() ==> has_shape(
            cons,
            seq![(vw((#[trigger] ch[k]) as int), 1), (vw(ch[k - 1] as int), -1)],
            0,
            LinOp::Eq,
            Priority::Medium,
        ))
}

/// An overlay stack: each child's frame defaults to the stack's frame, at
/// `Low` strength, with no ordering between children.
pub open spec fn zstack_facts(cons: Seq<LinCon>, i: int, ch: Seq<usize>) -> bool {
    forall|k: int|
        0 <= k < ch.len() ==> {
            let c = (#[trigger] ch[k]) as int;
            &&& has_shape(cons, seq![(vx(c), 1), (vx(i), -1)], 0, LinOp::Eq, Priority::Low)
            &&& has_shape(cons, seq![(vy(c), 1), (vy(i), -1)], 0, LinOp::Eq, Priority::Low)
            &&& has_shape(cons, seq![(vw(c), 1), (vw(i), -1)], 0, LinOp::Eq, Priority::Low)
            &&& has_shape(cons, seq![(vh(c), 1), (vh(i), -1)], 0, LinOp::Eq, Priority::Low)
        }
}

/// The implicit constraints of node `i`, if it is a stack with children.
pub open spec fn stack_fact(s: Scene, cons: Seq<LinCon>, i: int) -> bool {
    let n = s.nodes@[i];
    let ch = n.children@;
    match n.kind {
        NodeKind::VStack { properties } => ch.len() == 0 || vstack_facts(
            s,
            cons,
            i,
            ch,
            properties.spacing as int,
            properties.alignment,
            properties.distribution,
        ),
        NodeKind::HStack { properties } => ch.len() == 0 || hstack_facts(
            s,
            cons,
            i,
            ch,
            properties.spacing as int,
            properties.alignment,
            properties.distribution,
        ),
        NodeKind::ZStack { .. } => zstack_facts(cons, i, ch),
        _ => true,
    }
}

/// Everything the lowering promises about the produced system.
pub open spec fn lowered_ok(s: Scene, intr: Seq<Option<(i64, i64)>>, cons: Seq<LinCon>) -> bool {
    &&& canvas_facts(s, cons)
    &&& forall|i: int| 0 <= i <= s.nodes@.len() ==> slot_facts(cons, i)
    &&& forall|i: int, j: int|
        0 <= i < s.nodes@.len() && 0 <= j < s.nodes@[i].constraints@.len() ==> user_fact(
            s,
            cons,
            i,
            #[trigger] s.nodes@[i].constraints@[j],
        )
    &&& forall|i: int| 0 <= i < s.nodes@.len() ==> intrinsic_fact(s, intr, cons, i)
    &&& forall|i: int| 0 <= i < s.nodes@.len() ==> stack_fact(s, cons, i)
}

proof fn lemma_canvas_facts_mono(s: Scene, pre: Seq<LinCon>, post: Seq<LinCon>)
    requires
        extends(pre, post),
        canvas_facts(s, pre),
    ensures
        canvas_facts(s, post),
{
    let L = s.nodes@.len() as int;
    lemma_has_shape_mono(pre, post, seq![(vx(L), 1)], 0, LinOp::Eq, Priority::Required);
    lemma_has_shape_mono(pre, post, seq![(vy(L), 1)], 0, LinOp::Eq, Priority::Required);
    lemma_has_shape_mono(
        pre,
        post,
        seq![(vw(L), 1)],
        -(s.canvas.width as int),
        LinOp::Eq,
        Priority::Required,
    );
    lemma_has_shape_mono(
        pre,
        post,
        seq![(vh(L), 1)],
        -(s.canvas.height as int),
        LinOp::Eq,
        Priority::Required,
    );
}

proof fn lemma_slot_facts_mono(pre: Seq<LinCon>, post: Seq<LinCon>, i: int)
    requires
        extends(pre, post),
        slot_facts(pre, i),
    ensures
        slot_facts(post, i),
{
    lemma_has_shape_mono(
        pre,
        post,
        seq![(vcx(i), 2), (vx(i), -2), (vw(i), -1)],
        0,
        LinOp::Eq,
        Priority::Required,
    );
    lemma_has_shape_mono(
        pre,
        post,
        seq![(vcy(i), 2), (vy(i), -2), (vh(i), -1)],
        0,
        LinOp::Eq,
        Priority::Required,
    );
    lemma_has_shape_mono(
        pre,
        post,
        seq![(vright(i), 1), (vx(i), -1), (vw(i), -1)],
        0,
        LinOp::Eq,
        Priority::Required,
    );
    lemma_has_shape_mono(
        pre,
        post,
        seq![(vbottom(i), 1), (vy(i), -1), (vh(i), -1)],
        0,
        LinOp::Eq,
        Priority::Required,
    );
    lemma_has_shape_mono(pre, post, seq![(vw(i), 1)], 0, LinOp::Ge, Priority::Required);
    lemma_has_shape_mono(pre, post, seq![(vh(i), 1)], 0, LinOp::Ge, Priority::Required);
}

proof fn lemma_user_fact_mono(s: Scene, pre: Seq<LinCon>, post: Seq<LinCon>, i: int, c: Constraint)
    requires
        extends(pre, post),
        user_fact(s, pre, i, c),
    ensures
        user_fact(s, post, i, c),
{
    assert forall|terms: Seq<(int, int)>, k: int, op: LinOp, p: Priority|
        has_shape(pre, terms, k, op, p) implies #[trigger] has_shape(post, terms, k, op, p) by {
        lemma_has_shape_mono(pre, post, terms, k, op, p);
    }
}

proof fn lemma_intrinsic_fact_mono(
    s: Scene,
    intr: Seq<Option<(i64, i64)>>,
    pre: Seq<LinCon>,
    post: Seq<LinCon>,
    i: int,
)
    requires
        extends(pre, post),
        intrinsic_fact(s, intr, pre, i),
    ensures
        intrinsic_fact(s, intr, post, i),
{
    assert forall|terms: Seq<(int, int)>, k: int, op: LinOp, p: Priority|
        has_shape(pre, terms, k, op, p) implies #[trigger] has_shape(post, terms, k, op, p) by {
        lemma_has_shape_mono(pre, post, terms, k, op, p);
    }
}

/// Transfers the main-axis chain facts of the first `hi` children (vertical stack).
proof fn lemma_chain_foralls_v(pre: Seq<LinCon>, post: Seq<LinCon>, ch: Seq<usize>, spacing: int, hi: int)
    requires
        extends(pre, post),
        hi <= ch.len(),
        forall|k2: int|
            1 <= k2 < hi ==> has_shape(
                pre,
                seq![(vy((#[trigger] ch[k2]) as int), 1), (vbottom(ch[k2 - 1] as int), -1)],
                -spacing,
                LinOp::Eq,
                Priority::Required,
            ),
    ensures
        forall|k2: int|
            1 <= k2 < hi ==> has_shape(
                post,
                seq![(vy((#[trigger] ch[k2]) as int), 1), (vbottom(ch[k2 - 1] as int), -1)],
                -spacing,
                LinOp::Eq,
                Priority::Required,
            ),
{
    assert forall|k2: int| 1 <= k2 < hi implies has_shape(
        post,
        seq![(vy((#[trigger] ch[k2]) as int), 1), (vbottom(ch[k2 - 1] as int), -1)],
        -spacing,
        LinOp::Eq,
        Priority::Required,
    ) by {
        lemma_has_shape_mono(
            pre,
            post,
            seq![(vy(ch[k2] as int), 1), (vbottom(ch[k2 - 1] as int), -1)],
            -spacing,
            LinOp::Eq,
            Priority::Required,
        );
    }
}

/// Transfers the cross-axis alignment facts of the first `hi` children.
proof fn lemma_align_foralls_v(
    pre: Seq<LinCon>,
    post: Seq<LinCon>,
    ii: int,
    ch: Seq<usize>,
    alignment: Alignment,
    hi: int,
)
    requires
        extends(pre, post),
        hi <= ch.len(),
        forall|k2: int| 0 <= k2 < hi ==> valign_fact(pre, ii, (#[trigger] ch[k2]) as int, alignment),
    ensures
        forall|k2: int| 0 <= k2 < hi ==> valign_fact(post, ii, (#[trigger] ch[k2]) as int, alignment),
{
    assert forall|k2: int| 0 <= k2 < hi implies valign_fact(
        post,
        ii,
        (#[trigger] ch[k2]) as int,
        alignment,
    ) by {
        lemma_valign_mono(pre, post, ii, ch[k2] as int, alignment);
    }
}

/// Transfers the spacer facts of the first `hi` children.
proof fn lemma_spacer_foralls_v(
    s: Scene,
    pre: Seq<LinCon>,
    post: Seq<LinCon>,
    ch: Seq<usize>,
    hi: int,
)
    requires
        extends(pre, post),
        hi <= ch.len(),
        forall|k2: int| 0 <= k2 < hi ==> spacer_fact(s, pre, (#[trigger] ch[k2]) as int, false),
    ensures
        forall|k2: int| 0 <= k2 < hi ==> spacer_fact(s, post, (#[trigger] ch[k2]) as int, false),
{
    assert forall|k2: int| 0 <= k2 < hi implies spacer_fact(
        s,
        post,
        (#[trigger] ch[k2]) as int,
        false,
    ) by {
        lemma_spacer_mono(s, pre, post, ch[k2] as int, false);
    }
}

/// Transfers the `FillEqually` facts of the first `hi` children.
proof fn lemma_fill_foralls_v(pre: Seq<LinCon>, post: Seq<LinCon>, ch: Seq<usize>, hi: int)
    requires
        extends(pre, post),
        hi <= ch.len(),
        forall|k2: int|
            1 <= k2 < hi ==> has_shape(
                pre,
                seq![(vh((#[trigger] ch[k2]) as int), 1), (vh(ch[k2 - 1] as int), -1)],
                0,
                LinOp::Eq,
                Priority::Medium,
            ),
    ensures
        forall|k2: int|
            1 <= k2 < hi ==> has_shape(
                post,
                seq![(vh((#[trigger] ch[k2]) as int), 1), (vh(ch[k2 - 1] as int), -1)],
                0,
                LinOp::Eq,
                Priority::Medium,
            ),
{
    assert forall|k2: int| 1 <= k2 < hi implies has_shape(
        post,
        seq![(vh((#[trigger] ch[k2]) as int), 1), (vh(ch[k2 - 1] as int), -1)],
        0,
        LinOp::Eq,
        Priority::Medium,
    ) by {
        lemma_has_shape_mono(
            pre,
            post,
            seq![(vh(ch[k2] as int), 1), (vh(ch[k2 - 1] as int), -1)],
            0,
            LinOp::Eq,
            Priority::Medium,
        );
    }
}

/// Transfers the main-axis chain facts of the first `hi` children (horizontal stack).
proof fn lemma_chain_foralls_h(pre: Seq<LinCon>, post: Seq<LinCon>, ch: Seq<usize>, spacing: int, hi: int)
    requires
        extends(pre, post),
        hi <= ch.len(),
        forall|k2: int|
            1 <= k2 < hi ==> has_shape(
                pre,
                seq![(vx((#[trigger] ch[k2]) as int), 1), (vright(ch[k2 - 1] as int), -1)],
                -spacing,
                LinOp::Eq,
                Priority::Required,
            ),
    ensures
        forall|k2: int|
            1 <= k2 < hi ==> has_shape(
                post,
                seq![(vx((#[trigger] ch[k2]) as int), 1), (vright(ch[k2 - 1] as int), -1)],
                -spacing,
                LinOp::Eq,
                Priority::Required,
            ),
{
    assert forall|k2: int| 1 <= k2 < hi implies has_shape(
        post,
        seq![(vx((#[trigger] ch[k2]) as int), 1), (vright(ch[k2 - 1] as int), -1)],
        -spacing,
        LinOp::Eq,
        Priority::Required,
    ) by {
        lemma_has_shape_mono(
            pre,
            post,
            seq![(vx(ch[k2] as int), 1), (vright(ch[k2 - 1] as int), -1)],
            -spacing,
            LinOp::Eq,
            Priority::Required,
        );
    }
}

/// Transfers the cross-axis alignment facts of the first `hi` children.
proof fn lemma_align_foralls_h(
    pre: Seq<LinCon>,
    post: Seq<LinCon>,
    ii: int,
    ch: Seq<usize>,
    alignment: Alignment,
    hi: int,
)
    requires
        extends(pre, post),
        hi <= ch.len(),
        forall|k2: int| 0 <= k2 < hi ==> halign_fact(pre, ii, (#[trigger] ch[k2]) as int, alignment),
    ensures
        forall|k2: int| 0 <= k2 < hi ==> halign_fact(post, ii, (#[trigger] ch[k2]) as int, alignment),
{
    assert forall|k2: int| 0 <= k2 < hi implies halign_fact(
        post,
        ii,
        (#[trigger] ch[k2]) as int,
        alignment,
    ) by {
        lemma_halign_mono(pre, post, ii, ch[k2] as int, alignment);
    }
}

/// Transfers the spacer facts of the first `hi` children.
proof fn lemma_spacer_foralls_h(
    s: Scene,
    pre: Seq<LinCon>,
    post: Seq<LinCon>,
    ch: Seq<usize>,
    hi: int,
)
    requires
        extends(pre, post),
        hi <= ch.len(),
        forall|k2: int| 0 <= k2 < hi ==> spacer_fact(s, pre, (#[trigger] ch[k2]) as int, true),
    ensures
        forall|k2: int| 0 <= k2 < hi ==> spacer_fact(s, post, (#[trigger] ch[k2]) as int, true),
{
    assert forall|k2: int| 0 <= k2 < hi implies spacer_fact(
        s,
        post,
        (#[trigger] ch[k2]) as int,
        true,
    ) by {
        lemma_spacer_mono(s, pre, post, ch[k2] as int, true);
    }
}

/// Transfers the `FillEqually` facts of the first `hi` children.
proof fn lemma_fill_foralls_h(pre: Seq<LinCon>, post: Seq<LinCon>, ch: Seq<usize>, hi: int)
    requires
        extends(pre, post),
        hi <= ch.len(),
        forall|k2: int|
            1 <= k2 < hi ==> has_shape(
                pre,
                seq![(vw((#[trigger] ch[k2]) as int), 1), (vw(ch[k2 - 1] as int), -1)],
                0,
                LinOp::Eq,
                Priority::Medium,
            ),
    ensures
        forall|k2: int|
            1 <= k2 < hi ==> has_shape(
                post,
                seq![(vw((#[trigger] ch[k2]) as int), 1), (vw(ch[k2 - 1] as int), -1)],
                0,
                LinOp::Eq,
                Priority::Medium,
            ),
{
    assert forall|k2: int| 1 <= k2 < hi implies has_shape(
        post,
        seq![(vw((#[trigger] ch[k2]) as int), 1), (vw(ch[k2 - 1] as int), -1)],
        0,
        LinOp::Eq,
        Priority::Medium,
    ) by {
        lemma_has_shape_mono(
            pre,
            post,
            seq![(vw(ch[k2] as int), 1), (vw(ch[k2 - 1] as int), -1)],
            0,
            LinOp::Eq,
            Priority::Medium,
        );
    }
}

/// A vertical stack's implicit constraints stay present in any extension.
#[verifier::rlimit(100)]
#[verifier::spinoff_prover]
proof fn lemma_vstack_facts_mono(
    s: Scene,
    pre: Seq<LinCon>,
    post: Seq<LinCon>,
    i: int,
    ch: Seq<usize>,
    spacing: int,
    alignment: Alignment,
    distribution: Distribution,
)
    requires
        extends(pre, post),
        ch.len() > 0,
        vstack_facts(s, pre, i, ch, spacing, alignment, distribution),
    ensures
        vstack_facts(s, post, i, ch, spacing, alignment, distribution),
{
    lemma_has_shape_mono(
        pre,
        post,
        seq![(vy(ch[0] as int), 1), (vy(i), -1)],
        0,
        LinOp::Eq,
        Priority::Required,
    );
    lemma_chain_foralls_v(pre, post, ch, spacing, ch.len() as int);
    lemma_align_foralls_v(pre, post, i, ch, alignment, ch.len() as int);
    lemma_has_shape_mono(
        pre,
        post,
        seq![(vh(i), 1), (vbottom(ch[ch.len() - 1] as int), -1), (vy(i), 1)],
        0,
        LinOp::Eq,
        Priority::Required,
    );
    lemma_spacer_foralls_v(s, pre, post, ch, ch.len() as int);
    if distribution == Distribution::FillEqually {
        lemma_fill_foralls_v(pre, post, ch, ch.len() as int);
    }
}

/// A horizontal stack's implicit constraints stay present in any extension.
#[verifier::rlimit(100)]
#[verifier::spinoff_prover]
proof fn lemma_hstack_facts_mono(
    s: Scene,
    pre: Seq<LinCon>,
    post: Seq<LinCon>,
    i: int,
    ch: Seq<usize>,
    spacing: int,
    alignment: Alignment,
    distribution: Distribution,
)
    requires
        extends(pre, post),
        ch.len() > 0,
        hstack_facts(s, pre, i, ch, spacing, alignment, distribution),
    ensures
        hstack_facts(s, post, i, ch, spacing, alignment, distribution),
{
    lemma_has_shape_mono(
        pre,
        post,
        seq![(vx(ch[0] as int), 1), (vx(i), -1)],
        0,
        LinOp::Eq,
        Priority::Required,
    );
    lemma_chain_foralls_h(pre, post, ch, spacing, ch.len() as int);
    lemma_align_foralls_h(pre, post, i, ch, alignment, ch.len() as int);
    lemma_has_shape_mono(
        pre,
        post,
        seq![(vw(i), 1), (vright(ch[ch.len() - 1] as int), -1), (vx(i), 1)],
        0,
        LinOp::Eq,
        Priority::Required,
    );
    lemma_spacer_foralls_h(s, pre, post, ch, ch.len() as int);
    if distribution == Distribution::FillEqually {
        lemma_fill_foralls_h(pre, post, ch, ch.len() as int);
    }
}

/// An overlay stack's implicit constraints stay present in any extension.
proof fn lemma_zstack_facts_mono(pre: Seq<LinCon>, post: Seq<LinCon>, i: int, ch: Seq<usize>)
    requires
        extends(pre, post),
        zstack_facts(pre, i, ch),
    ensures
        zstack_facts(post, i, ch),
{
    assert forall|k: int| 0 <= k < ch.len() implies {
        let c = (#[trigger] ch[k]) as int;
        &&& has_shape(post, seq![(vx(c), 1), (vx(i), -1)], 0, LinOp::Eq, Priority::Low)
        &&& has_shape(post, seq![(vy(c), 1), (vy(i), -1)], 0, LinOp::Eq, Priority::Low)
        &&& has_shape(post, seq![(vw(c), 1), (vw(i), -1)], 0, LinOp::Eq, Priority::Low)
        &&& has_shape(post, seq![(vh(c), 1), (vh(i), -1)], 0, LinOp::Eq, Priority::Low)
    } by {
        let c = ch[k] as int;
        lemma_has_shape_mono(pre, post, seq![(vx(c), 1), (vx(i), -1)], 0, LinOp::Eq, Priority::Low);
        lemma_has_shape_mono(pre, post, seq![(vy(c), 1), (vy(i), -1)], 0, LinOp::Eq, Priority::Low);
        lemma_has_shape_mono(pre, post, seq![(vw(c), 1), (vw(i), -1)], 0, LinOp::Eq, Priority::Low);
        lemma_has_shape_mono(pre, post, seq![(vh(c), 1), (vh(i), -1)], 0, LinOp::Eq, Priority::Low);
    }
}

/// A stack's implicit constraints stay present in any extension.
#[verifier::rlimit(100)]
#[verifier::spinoff_prover]
proof fn lemma_stack_fact_mono(s: Scene, pre: Seq<LinCon>, post: Seq<LinCon>, i: int)
    requires
        extends(pre, post),
        stack_fact(s, pre, i),
    ensures
        stack_fact(s, post, i),
{
    let n = s.nodes@[i];
    let ch = n.children@;
    match n.kind {
        NodeKind::VStack { properties } => {
            if ch.len() > 0 {
                lemma_vstack_facts_mono(
                    s,
                    pre,
                    post,
                    i,
                    ch,
                    properties.spacing as int,
                    properties.alignment,
                    properties.distribution,
                );
            }
        },
        NodeKind::HStack { properties } => {
            if ch.len() > 0 {
                lemma_hstack_facts_mono(
                    s,
                    pre,
                    post,
                    i,
                    ch,
                    properties.spacing as int,
                    properties.alignment,
                    properties.distribution,
                );
            }
        },
        NodeKind::ZStack { .. } => {
            lemma_zstack_facts_mono(pre, post, i, ch);
        },
        _ => (),
    }
}

/// Skipping unmatched entries does not change the resolution.
proof fn lemma_resolve_range(nodes: Seq<Node>, id: Seq<char>, j: int, i: int)
    requires
        0 <= j <= i <= nodes.len(),
        forall|t: int| j <= t < i ==> (#[trigger] nodes[t]).id@ != id,
    ensures
        spec_resolve_from(nodes, id, j) == spec_resolve_from(nodes, id, i),
    decreases i - j,
{
    if j < i {
        assert(nodes[j].id@ != id);
        lemma_resolve_range(nodes, id, j + 1, i);
    }
}

/// Whether the id is the reserved canvas name.
fn is_canvas_id(id: &String) -> (b: bool)
    ensures
        b == (id@ == "canvas"@),
{
    let canvas: String = String::from_str("canvas");
    *id == canvas
}

/// Finds the first node carrying the id.
fn resolve_id(nodes: &Vec<Node>, id: &String) -> (r: Option<usize>)
    ensures
        match r {
            Some(t) => spec_resolve_from(nodes@, id@, 0) == Some(t as int) && t < nodes@.len(),
            Option::None => spec_resolve_from(nodes@, id@, 0) is None,
        },
{
    let n: usize = nodes.len();
    let mut i: usize = 0;
    while i < n
        invariant
            0 <= i <= n,
            n == nodes@.len(),
            forall|t: int| 0 <= t < i ==> (#[trigger] nodes@[t]).id@ != id@,
        decreases n - i,
    {
        if nodes[i].id == *id {
            proof {
                lemma_resolve_range(nodes@, id@, 0, i as int);
            }
            return Some(i);
        }
        i = i + 1;
    }
    proof {
        lemma_resolve_range(nodes@, id@, 0, n as int);
    }
    None
}

/// Resolves an optional target to its slot.
fn resolve_target(scene: &Scene, target: &Option<ElementId>) -> (r: Option<usize>)
    requires
        scene_wf(*scene),
    ensures
        match r {
            Some(t) => spec_target_slot(*scene, *target) == Some(t as int) && t
                <= scene.nodes@.len(),
            Option::None => spec_target_slot(*scene, *target) is None,
        },
{
    match target {
        Option::None => Some(scene.nodes.len()),
        Option::Some(id) => {
            if is_canvas_id(id) {
                Some(scene.nodes.len())
            } else {
                resolve_id(&scene.nodes, id)
            }
        },
    }
}

/// Checks that every constraint of the scene can be lowered; reports the
/// first offender in document order.
fn validate_scene_targets(scene: &Scene) -> (r: Result<(), LowerError>)
    requires
        scene_wf(*scene),
    ensures
        r is Ok <==> scene_lowerable(*scene),
        r matches Err(e) ==> match e {
            LowerError::ElementNotFound(id) => spec_target_slot(*scene, Some(id)) is None,
            LowerError::InvalidConstraint(nid) => exists|a: int, b: int|
                0 <= a < scene.nodes@.len() && 0 <= b < scene.nodes@[a].constraints@.len()
                    && scene.nodes@[a].id == nid && ((#[trigger] scene.nodes@[a].constraints@[b]).constraint_type matches
                ConstraintType::AlignBaseline { .. }),
        },
{
    let n: usize = scene.nodes.len();
    let mut i: usize = 0;
    while i < n
        invariant
            0 <= i <= n,
            n == scene.nodes@.len(),
            scene_wf(*scene),
            forall|a: int, b: int|
                0 <= a < i && 0 <= b < scene.nodes@[a].constraints@.len() ==> ctype_ok(
                    *scene,
                    (#[trigger] scene.nodes@[a].constraints@[b]).constraint_type,
                ),
        decreases n - i,
    {
        let m: usize = scene.nodes[i].constraints.len();
        let mut j: usize = 0;
        while j < m
            invariant
                0 <= j <= m,
                0 <= i < n,
                n == scene.nodes@.len(),
                m == scene.nodes@[i as int].constraints@.len(),
                scene_wf(*scene),
                forall|a: int, b: int|
                    0 <= a < i && 0 <= b < scene.nodes@[a].constraints@.len() ==> ctype_ok(
                        *scene,
                        (#[trigger] scene.nodes@[a].constraints@[b]).constraint_type,
                    ),
                forall|b: int|
                    0 <= b < j ==> ctype_ok(
                        *scene,
                        (#[trigger] scene.nodes@[i as int].constraints@[b]).constraint_type,
                    ),
            decreases m - j,
        {
            let ct: &ConstraintType = &scene.nodes[i].constraints[j].constraint_type;
            let bad: Option<LowerError> = match ct {
                ConstraintType::Top { target, .. } => target_err(scene, target),
                ConstraintType::Bottom { target, .. } => target_err(scene, target),
                ConstraintType::Leading { target, .. } => target_err(scene, target),
                ConstraintType::Trailing { target, .. } => target_err(scene, target),
                ConstraintType::CenterX { target, .. } => target_err(scene, target),
                ConstraintType::CenterY { target, .. } => target_err(scene, target),
                ConstraintType::Width { value, target, .. } => match value {
                    Option::Some(_) => None,
                    Option::None => match target {
                        Option::Some(_) => target_err(scene, target),
                        Option::None => None,
                    },
                },
                ConstraintType::Height { value, target, .. } => match value {
                    Option::Some(_) => None,
                    Option::None => match target {
                        Option::Some(_) => target_err(scene, target),
                        Option::None => None,
                    },
                },
                ConstraintType::AspectRatio { .. } => None,
                ConstraintType::MinWidth { .. } => None,
                ConstraintType::MaxWidth { .. } => None,
                ConstraintType::MinHeight { .. } => None,
                ConstraintType::MaxHeight { .. } => None,
                ConstraintType::AlignTop { target } => named_target_err(scene, target),
                ConstraintType::AlignBottom { target } => named_target_err(scene, target),
                ConstraintType::AlignLeading { target } => named_target_err(scene, target),
                ConstraintType::AlignTrailing { target } => named_target_err(scene, target),
                ConstraintType::AlignBaseline { .. } => {
                    proof {
                        assert(scene.nodes@[i as int].constraints@[j as int].constraint_type
                            matches ConstraintType::AlignBaseline { .. });
                    }
                    Some(LowerError::InvalidConstraint(scene.nodes[i].id.clone()))
                },
            };
            match bad {
                Some(e) => {
                    return Err(e);
                },
                Option::None => {},
            }
            j = j + 1;
        }
        i = i + 1;
    }
    Ok(())
}

/// `Some(error)` when the optional target does not resolve.
fn target_err(scene: &Scene, target: &Option<ElementId>) -> (r: Option<LowerError>)
    requires
        scene_wf(*scene),
    ensures
        r is None <==> spec_target_slot(*scene, *target) is Some,
        r matches Some(e) ==> (e matches LowerError::ElementNotFound(id) && spec_target_slot(
            *scene,
            Some(id),
        ) is None),
{
    match resolve_target(scene, target) {
        Some(_) => None,
        Option::None => match target {
            Option::Some(id) => Some(LowerError::ElementNotFound(id.clone())),
            Option::None => Some(LowerError::ElementNotFound(String::new())),
        },
    }
}

/// Every constraint of the sequence is within the working range for `nv`
/// variables.
pub open spec fn cons_wf(cons: Seq<LinCon>, nv: nat) -> bool {
    forall|j: int| 0 <= j < cons.len() ==> con_wf(#[trigger] cons[j], nv)
}

/// Introduces a shape from a known index.
proof fn lemma_has_at(
    cons: Seq<LinCon>,
    j: int,
    terms: Seq<(int, int)>,
    k: int,
    op: LinOp,
    p: Priority,
)
    requires
        0 <= j < cons.len(),
        con_matches(cons[j], terms, k, op, p),
    ensures
        has_shape(cons, terms, k, op, p),
{
}

/// The variable indices of a slot, executable forms.
fn slot_x(i: usize) -> (v: usize)
    requires
        i <= 100_000_001,
    ensures
        v == vx(i as int),
{
    8 * i
}

fn slot_y(i: usize) -> (v: usize)
    requires
        i <= 100_000_001,
    ensures
        v == vy(i as int),
{
    8 * i + 1
}

fn slot_w(i: usize) -> (v: usize)
    requires
        i <= 100_000_001,
    ensures
        v == vw(i as int),
{
    8 * i + 2
}

fn slot_h(i: usize) -> (v: usize)
    requires
        i <= 100_000_001,
    ensures
        v == vh(i as int),
{
    8 * i + 3
}

fn slot_cx(i: usize) -> (v: usize)
    requires
        i <= 100_000_001,
    ensures
        v == vcx(i as int),
{
    8 * i + 4
}

fn slot_cy(i: usize) -> (v: usize)
    requires
        i <= 100_000_001,
    ensures
        v == vcy(i as int),
{
    8 * i + 5
}

fn slot_right(i: usize) -> (v: usize)
    requires
        i <= 100_000_001,
    ensures
        v == vright(i as int),
{
    8 * i + 6
}

fn slot_bottom(i: usize) -> (v: usize)
    requires
        i <= 100_000_001,
    ensures
        v == vbottom(i as int),
{
    8 * i + 7
}

/// Emits the canvas's fixed frame.
fn emit_canvas(cons: &mut Vec<LinCon>, scene: &Scene, Ghost(nv): Ghost<nat>)
    requires
        scene_wf(*scene),
        nv == 8 * (scene.nodes@.len() + 1),
        cons_wf(old(cons)@, nv),
    ensures
        extends(old(cons)@, final(cons)@),
        cons_wf(final(cons)@, nv),
        canvas_facts(*scene, final(cons)@),
{
    let len: usize = scene.nodes.len();
    let ghost l0 = cons@.len() as int;
    push_con1(cons, slot_x(len), 1, 0, LinOp::Eq, Priority::Required, Ghost(nv));
    push_con1(cons, slot_y(len), 1, 0, LinOp::Eq, Priority::Required, Ghost(nv));
    push_con1(cons, slot_w(len), 1, -scene.canvas.width, LinOp::Eq, Priority::Required, Ghost(nv));
    push_con1(cons, slot_h(len), 1, -scene.canvas.height, LinOp::Eq, Priority::Required, Ghost(nv));
    proof {
        let L = scene.nodes@.len() as int;
        lemma_has_at(cons@, l0, seq![(vx(L), 1)], 0, LinOp::Eq, Priority::Required);
        lemma_has_at(cons@, l0 + 1, seq![(vy(L), 1)], 0, LinOp::Eq, Priority::Required);
        lemma_has_at(
            cons@,
            l0 + 2,
            seq![(vw(L), 1)],
            -(scene.canvas.width as int),
            LinOp::Eq,
            Priority::Required,
        );
        lemma_has_at(
            cons@,
            l0 + 3,
            seq![(vh(L), 1)],
            -(scene.canvas.height as int),
            LinOp::Eq,
            Priority::Required,
        );
    }
}

/// Emits the defining identities and size nonnegativity of one slot.
fn emit_slot(cons: &mut Vec<LinCon>, i: usize, Ghost(nv): Ghost<nat>)
    requires
        i <= 100_000_001,
        8 * i + 7 < nv,
        cons_wf(old(cons)@, nv),
    ensures
        extends(old(cons)@, final(cons)@),
        cons_wf(final(cons)@, nv),
        slot_facts(final(cons)@, i as int),
{
    let ghost l0 = cons@.len() as int;
    push_con3(
        cons,
        slot_cx(i),
        2,
        slot_x(i),
        -2,
        slot_w(i),
        -1,
        0,
        LinOp::Eq,
        Priority::Required,
        Ghost(nv),
    );
    push_con3(
        cons,
        slot_cy(i),
        2,
        slot_y(i),
        -2,
        slot_h(i),
        -1,
        0,
        LinOp::Eq,
        Priority::Required,
        Ghost(nv),
    );
    push_con3(
        cons,
        slot_right(i),
        1,
        slot_x(i),
        -1,
        slot_w(i),
        -1,
        0,
        LinOp::Eq,
        Priority::Required,
        Ghost(nv),
    );
    push_con3(
        cons,
        slot_bottom(i),
        1,
        slot_y(i),
        -1,
        slot_h(i),
        -1,
        0,
        LinOp::Eq,
        Priority::Required,
        Ghost(nv),
    );
    push_con1(cons, slot_w(i), 1, 0, LinOp::Ge, Priority::Required, Ghost(nv));
    push_con1(cons, slot_h(i), 1, 0, LinOp::Ge, Priority::Required, Ghost(nv));
    proof {
        let ii = i as int;
        lemma_has_at(
            cons@,
            l0,
            seq![(vcx(ii), 2), (vx(ii), -2), (vw(ii), -1)],
            0,
            LinOp::Eq,
            Priority::Required,
        );
        lemma_has_at(
            cons@,
            l0 + 1,
            seq![(vcy(ii), 2), (vy(ii), -2), (vh(ii), -1)],
            0,
            LinOp::Eq,
            Priority::Required,
        );
        lemma_has_at(
            cons@,
            l0 + 2,
            seq![(vright(ii), 1), (vx(ii), -1), (vw(ii), -1)],
            0,
            LinOp::Eq,
            Priority::Required,
        );
        lemma_has_at(
            cons@,
            l0 + 3,
            seq![(vbottom(ii), 1), (vy(ii), -1), (vh(ii), -1)],
            0,
            LinOp::Eq,
            Priority::Required,
        );
        lemma_has_at(cons@, l0 + 4, seq![(vw(ii), 1)], 0, LinOp::Ge, Priority::Required);
        lemma_has_at(cons@, l0 + 5, seq![(vh(ii), 1)], 0, LinOp::Ge, Priority::Required);
    }
}

/// Emits `main(i) = target_edge + value` for the four edge constraints.
/// `iv` and `tv` are the already-chosen variable indices, `k` the constant.
fn emit_pair(
    cons: &mut Vec<LinCon>,
    iv: usize,
    tv: usize,
    k: i64,
    p: Priority,
    Ghost(nv): Ghost<nat>,
)
    requires
        iv < nv,
        tv < nv,
        abs_i(k as int) <= K_BOUND,
        cons_wf(old(cons)@, nv),
    ensures
        extends(old(cons)@, final(cons)@),
        cons_wf(final(cons)@, nv),
        has_shape(final(cons)@, seq![(iv as int, 1), (tv as int, -1)], k as int, LinOp::Eq, p),
{
    let ghost l0 = cons@.len() as int;
    push_con2(cons, iv, 1, tv, -1, k, LinOp::Eq, p, Ghost(nv));
    proof {
        lemma_has_at(cons@, l0, seq![(iv as int, 1), (tv as int, -1)], k as int, LinOp::Eq, p);
    }
}

/// Emits a fixed size: `w(i) = v` or `h(i) = v`.
fn emit_size_value(cons: &mut Vec<LinCon>, sv: usize, v: i64, p: Priority, Ghost(nv): Ghost<nat>)
    requires
        sv < nv,
        abs_i(v as int) <= LENGTH_BOUND,
        cons_wf(old(cons)@, nv),
    ensures
        extends(old(cons)@, final(cons)@),
        cons_wf(final(cons)@, nv),
        has_shape(final(cons)@, seq![(sv as int, 1)], -(v as int), LinOp::Eq, p),
{
    let ghost l0 = cons@.len() as int;
    push_con1(cons, sv, 1, -v, LinOp::Eq, p, Ghost(nv));
    proof {
        lemma_has_at(cons@, l0, seq![(sv as int, 1)], -(v as int), LinOp::Eq, p);
    }
}

/// Emits a relative size: `1000 * s(i) = m * s(t)`.
fn emit_size_rel(
    cons: &mut Vec<LinCon>,
    sv: usize,
    tv: usize,
    m: i64,
    p: Priority,
    Ghost(nv): Ghost<nat>,
)
    requires
        sv < nv,
        tv < nv,
        abs_i(m as int) <= RATIO_BOUND,
        cons_wf(old(cons)@, nv),
    ensures
        extends(old(cons)@, final(cons)@),
        cons_wf(final(cons)@, nv),
        has_shape(
            final(cons)@,
            seq![(sv as int, RATIO_SCALE as int), (tv as int, -(m as int))],
            0,
            LinOp::Eq,
            p,
        ),
{
    let ghost l0 = cons@.len() as int;
    push_con2(cons, sv, RATIO_SCALE, tv, -m, 0, LinOp::Eq, p, Ghost(nv));
    proof {
        lemma_has_at(
            cons@,
            l0,
            seq![(sv as int, RATIO_SCALE as int), (tv as int, -(m as int))],
            0,
            LinOp::Eq,
            p,
        );
    }
}

/// Emits a one-sided size bound: `s(i) >= v` or `s(i) <= v`.
fn emit_size_bound(
    cons: &mut Vec<LinCon>,
    sv: usize,
    v: i64,
    op: LinOp,
    p: Priority,
    Ghost(nv): Ghost<nat>,
)
    requires
        sv < nv,
        abs_i(v as int) <= LENGTH_BOUND,
        cons_wf(old(cons)@, nv),
    ensures
        extends(old(cons)@, final(cons)@),
        cons_wf(final(cons)@, nv),
        has_shape(final(cons)@, seq![(sv as int, 1)], -(v as int), op, p),
{
    let ghost l0 = cons@.len() as int;
    push_con1(cons, sv, 1, -v, op, p, Ghost(nv));
    proof {
        lemma_has_at(cons@, l0, seq![(sv as int, 1)], -(v as int), op, p);
    }
}

/// Emits the lowering of one user constraint of node `i`, per the table in
/// [`user_fact`].
#[verifier::rlimit(100)]
fn emit_user(cons: &mut Vec<LinCon>, scene: &Scene, i: usize, c: &Constraint, Ghost(nv): Ghost<
    nat,
>)
    requires
        scene_wf(*scene),
        i < scene.nodes@.len(),
        constraint_wf(*c),
        ctype_ok(*scene, c.constraint_type),
        nv == 8 * (scene.nodes@.len() + 1),
        cons_wf(old(cons)@, nv),
    ensures
        extends(old(cons)@, final(cons)@),
        cons_wf(final(cons)@, nv),
        user_fact(*scene, final(cons)@, i as int, *c),
{
    let p: Priority = c.priority;
    let len: usize = scene.nodes.len();
    match &c.constraint_type {
        ConstraintType::Top { target, value } => {
            let t: usize = match resolve_target(scene, target) {
                Some(t) => t,
                Option::None => { return ; },
            };
            let tv: usize = if t == len { slot_y(t) } else { slot_bottom(t) };
            emit_pair(cons, slot_y(i), tv, -*value, p, Ghost(nv));
        },
        ConstraintType::Bottom { target, value } => {
            let t: usize = match resolve_target(scene, target) {
                Some(t) => t,
                Option::None => { return ; },
            };
            let tv: usize = if t == len { slot_bottom(t) } else { slot_y(t) };
            emit_pair(cons, slot_bottom(i), tv, *value, p, Ghost(nv));
        },
        ConstraintType::Leading { target, value } => {
            let t: usize = match resolve_target(scene, target) {
                Some(t) => t,
                Option::None => { return ; },
            };
            let tv: usize = if t == len { slot_x(t) } else { slot_right(t) };
            emit_pair(cons, slot_x(i), tv, -*value, p, Ghost(nv));
        },
        ConstraintType::Trailing { target, value } => {
            let t: usize = match resolve_target(scene, target) {
                Some(t) => t,
                Option::None => { return ; },
            };
            let tv: usize = if t == len { slot_right(t) } else { slot_x(t) };
            emit_pair(cons, slot_right(i), tv, *value, p, Ghost(nv));
        },
        ConstraintType::CenterX { target, offset } => {
            let t: usize = match resolve_target(scene, target) {
                Some(t) => t,
                Option::None => { return ; },
            };
            emit_pair(cons, slot_cx(i), slot_cx(t), -*offset, p, Ghost(nv));
        },
        ConstraintType::CenterY { target, offset } => {
            let t: usize = match resolve_target(scene, target) {
                Some(t) => t,
                Option::None => { return ; },
            };
            emit_pair(cons, slot_cy(i), slot_cy(t), -*offset, p, Ghost(nv));
        },
        ConstraintType::Width { value, target, multiplier, percent } => {
            match value {
                Some(v) => {
                    emit_size_value(cons, slot_w(i), *v, p, Ghost(nv));
                },
                Option::None => {
                    match target {
                        Some(_) => {
                            let t: usize = match resolve_target(scene, target) {
                                Some(t) => t,
                                Option::None => { return ; },
                            };
                            let m: i64 = match percent {
                                Some(pc) => *pc,
                                Option::None => *multiplier,
                            };
                            emit_size_rel(cons, slot_w(i), slot_w(t), m, p, Ghost(nv));
                        },
                        Option::None => {},
                    }
                },
            }
        },
        ConstraintType::Height { value, target, multiplier, percent } => {
            match value {
                Some(v) => {
                    emit_size_value(cons, slot_h(i), *v, p, Ghost(nv));
                },
                Option::None => {
                    match target {
                        Some(_) => {
                            let t: usize = match resolve_target(scene, target) {
                                Some(t) => t,
                                Option::None => { return ; },
                            };
                            let m: i64 = match percent {
                                Some(pc) => *pc,
                                Option::None => *multiplier,
                            };
                            emit_size_rel(cons, slot_h(i), slot_h(t), m, p, Ghost(nv));
                        },
                        Option::None => {},
                    }
                },
            }
        },
        ConstraintType::AspectRatio { ratio } => {
            emit_size_rel(cons, slot_w(i), slot_h(i), *ratio, p, Ghost(nv));
        },
        ConstraintType::MinWidth { value } => {
            emit_size_bound(cons, slot_w(i), *value, LinOp::Ge, p, Ghost(nv));
        },
        ConstraintType::MaxWidth { value } => {
            emit_size_bound(cons, slot_w(i), *value, LinOp::Le, p, Ghost(nv));
        },
        ConstraintType::MinHeight { value } => {
            emit_size_bound(cons, slot_h(i), *value, LinOp::Ge, p, Ghost(nv));
        },
        ConstraintType::MaxHeight { value } => {
            emit_size_bound(cons, slot_h(i), *value, LinOp::Le, p, Ghost(nv));
        },
        ConstraintType::AlignTop { target } => {
            let t: usize = match resolve_id_or_canvas(scene, target) {
                Some(t) => t,
                Option::None => { return ; },
            };
            emit_pair(cons, slot_y(i), slot_y(t), 0, p, Ghost(nv));
        },
        ConstraintType::AlignBottom { target } => {
            let t: usize = match resolve_id_or_canvas(scene, target) {
                Some(t) => t,
                Option::None => { return ; },
            };
            emit_pair(cons, slot_bottom(i), slot_bottom(t), 0, p, Ghost(nv));
        },
        ConstraintType::AlignLeading { target } => {
            let t: usize = match resolve_id_or_canvas(scene, target) {
                Some(t) => t,
                Option::None => { return ; },
            };
            emit_pair(cons, slot_x(i), slot_x(t), 0, p, Ghost(nv));
        },
        ConstraintType::AlignTrailing { target } => {
            let t: usize = match resolve_id_or_canvas(scene, target) {
                Some(t) => t,
                Option::None => { return ; },
            };
            emit_pair(cons, slot_right(i), slot_right(t), 0, p, Ghost(nv));
        },
        ConstraintType::AlignBaseline { .. } => {},
    }
}


/// Whether the node has an explicit fixed width at `Required` strength,
/// decided by scanning its constraints.
fn node_has_required_width(n: &Node) -> (b: bool)
    ensures
        b == has_required_width(*n),
{
    let m: usize = n.constraints.len();
    let mut j: usize = 0;
    while j < m
        invariant
            0 <= j <= m,
            m == n.constraints@.len(),
            forall|t: int|
                0 <= t < j ==> !((#[trigger] n.constraints@[t]).priority == Priority::Required
                    && (n.constraints@[t].constraint_type matches ConstraintType::Width {
                    value: Option::Some(_),
                    ..
                })),
        decreases m - j,
    {
        let is_req: bool = n.constraints[j].priority == Priority::Required;
        let is_width_value: bool = match &n.constraints[j].constraint_type {
            ConstraintType::Width { value: Option::Some(_), .. } => true,
            _ => false,
        };
        if is_req && is_width_value {
            return true;
        }
        j = j + 1;
    }
    false
}

/// Whether the node has an explicit fixed height at `Required` strength.
fn node_has_required_height(n: &Node) -> (b: bool)
    ensures
        b == has_required_height(*n),
{
    let m: usize = n.constraints.len();
    let mut j: usize = 0;
    while j < m
        invariant
            0 <= j <= m,
            m == n.constraints@.len(),
            forall|t: int|
                0 <= t < j ==> !((#[trigger] n.constraints@[t]).priority == Priority::Required
                    && (n.constraints@[t].constraint_type matches ConstraintType::Height {
                    value: Option::Some(_),
                    ..
                })),
        decreases m - j,
    {
        let is_req: bool = n.constraints[j].priority == Priority::Required;
        let is_height_value: bool = match &n.constraints[j].constraint_type {
            ConstraintType::Height { value: Option::Some(_), .. } => true,
            _ => false,
        };
        if is_req && is_height_value {
            return true;
        }
        j = j + 1;
    }
    false
}

/// Emits node `i`'s intrinsic size at `Medium` strength, per axis, unless
/// an explicit `Required` size already fixes that axis.
fn emit_intrinsic(
    cons: &mut Vec<LinCon>,
    scene: &Scene,
    i: usize,
    wh: (i64, i64),
    Ghost(nv): Ghost<nat>,
)
    requires
        scene_wf(*scene),
        i < scene.nodes@.len(),
        0 <= wh.0 <= LENGTH_BOUND,
        0 <= wh.1 <= LENGTH_BOUND,
        nv == 8 * (scene.nodes@.len() + 1),
        cons_wf(old(cons)@, nv),
    ensures
        extends(old(cons)@, final(cons)@),
        cons_wf(final(cons)@, nv),
        !has_required_width(scene.nodes@[i as int]) ==> has_shape(
            final(cons)@,
            seq![(vw(i as int), 1)],
            -(wh.0 as int),
            LinOp::Eq,
            Priority::Medium,
        ),
        !has_required_height(scene.nodes@[i as int]) ==> has_shape(
            final(cons)@,
            seq![(vh(i as int), 1)],
            -(wh.1 as int),
            LinOp::Eq,
            Priority::Medium,
        ),
{
    let ghost pre = cons@;
    let mut emitted_w: bool = false;
    if !node_has_required_width(&scene.nodes[i]) {
        emit_size_value(cons, slot_w(i), wh.0, Priority::Medium, Ghost(nv));
        emitted_w = true;
    }
    let ghost mid = cons@;
    if !node_has_required_height(&scene.nodes[i]) {
        emit_size_value(cons, slot_h(i), wh.1, Priority::Medium, Ghost(nv));
        proof {
            if !has_required_width(scene.nodes@[i as int]) {
                lemma_has_shape_mono(
                    mid,
                    cons@,
                    seq![(vw(i as int), 1)],
                    -(wh.0 as int),
                    LinOp::Eq,
                    Priority::Medium,
                );
            }
        }
    }
}

/// Emits the overlay defaults of a `ZStack` child: frame equal to the
/// stack's frame, at `Low` strength.
fn emit_zstack_child(cons: &mut Vec<LinCon>, i: usize, c: usize, Ghost(nv): Ghost<nat>)
    requires
        i <= 100_000_001,
        c <= 100_000_001,
        8 * i + 7 < nv,
        8 * c + 7 < nv,
        cons_wf(old(cons)@, nv),
    ensures
        extends(old(cons)@, final(cons)@),
        cons_wf(final(cons)@, nv),
        has_shape(
            final(cons)@,
            seq![(vx(c as int), 1), (vx(i as int), -1)],
            0,
            LinOp::Eq,
            Priority::Low,
        ),
        has_shape(
            final(cons)@,
            seq![(vy(c as int), 1), (vy(i as int), -1)],
            0,
            LinOp::Eq,
            Priority::Low,
        ),
        has_shape(
            final(cons)@,
            seq![(vw(c as int), 1), (vw(i as int), -1)],
            0,
            LinOp::Eq,
            Priority::Low,
        ),
        has_shape(
            final(cons)@,
            seq![(vh(c as int), 1), (vh(i as int), -1)],
            0,
            LinOp::Eq,
            Priority::Low,
        ),
{
    let ghost l0 = cons@.len() as int;
    push_con2(cons, slot_x(c), 1, slot_x(i), -1, 0, LinOp::Eq, Priority::Low, Ghost(nv));
    push_con2(cons, slot_y(c), 1, slot_y(i), -1, 0, LinOp::Eq, Priority::Low, Ghost(nv));
    push_con2(cons, slot_w(c), 1, slot_w(i), -1, 0, LinOp::Eq, Priority::Low, Ghost(nv));
    push_con2(cons, slot_h(c), 1, slot_h(i), -1, 0, LinOp::Eq, Priority::Low, Ghost(nv));
    proof {
        lemma_has_at(
            cons@,
            l0,
            seq![(vx(c as int), 1), (vx(i as int), -1)],
            0,
            LinOp::Eq,
            Priority::Low,
        );
        lemma_has_at(
            cons@,
            l0 + 1,
            seq![(vy(c as int), 1), (vy(i as int), -1)],
            0,
            LinOp::Eq,
            Priority::Low,
        );
        lemma_has_at(
            cons@,
            l0 + 2,
            seq![(vw(c as int), 1), (vw(i as int), -1)],
            0,
            LinOp::Eq,
            Priority::Low,
        );
        lemma_has_at(
            cons@,
            l0 + 3,
            seq![(vh(c as int), 1), (vh(i as int), -1)],
            0,
            LinOp::Eq,
            Priority::Low,
        );
    }
}

/// Extension of constraint sequences is transitive.
proof fn lemma_extends_trans(a: Seq<LinCon>, b: Seq<LinCon>, c: Seq<LinCon>)
    requires
        extends(a, b),
        extends(b, c),
    ensures
        extends(a, c),
{
}

proof fn lemma_valign_mono(pre: Seq<LinCon>, post: Seq<LinCon>, i: int, c: int, a: Alignment)
    requires
        extends(pre, post),
        valign_fact(pre, i, c, a),
    ensures
        valign_fact(post, i, c, a),
{
    match a {
        Alignment::Leading => lemma_has_shape_mono(
            pre,
            post,
            seq![(vx(c), 1), (vx(i), -1)],
            0,
            LinOp::Eq,
            Priority::Required,
        ),
        Alignment::Center => lemma_has_shape_mono(
            pre,
            post,
            seq![(vcx(c), 1), (vcx(i), -1)],
            0,
            LinOp::Eq,
            Priority::Required,
        ),
        Alignment::Trailing => lemma_has_shape_mono(
            pre,
            post,
            seq![(vright(c), 1), (vright(i), -1)],
            0,
            LinOp::Eq,
            Priority::Required,
        ),
        _ => (),
    }
}

proof fn lemma_halign_mono(pre: Seq<LinCon>, post: Seq<LinCon>, i: int, c: int, a: Alignment)
    requires
        extends(pre, post),
        halign_fact(pre, i, c, a),
    ensures
        halign_fact(post, i, c, a),
{
    match a {
        Alignment::Top => lemma_has_shape_mono(
            pre,
            post,
            seq![(vy(c), 1), (vy(i), -1)],
            0,
            LinOp::Eq,
            Priority::Required,
        ),
        Alignment::Center => lemma_has_shape_mono(
            pre,
            post,
            seq![(vcy(c), 1), (vcy(i), -1)],
            0,
            LinOp::Eq,
            Priority::Required,
        ),
        Alignment::Bottom => lemma_has_shape_mono(
            pre,
            post,
            seq![(vbottom(c), 1), (vbottom(i), -1)],
            0,
            LinOp::Eq,
            Priority::Required,
        ),
        _ => (),
    }
}

proof fn lemma_spacer_mono(s: Scene, pre: Seq<LinCon>, post: Seq<LinCon>, c: int, axis_w: bool)
    requires
        extends(pre, post),
        spacer_fact(s, pre, c, axis_w),
    ensures
        spacer_fact(s, post, c, axis_w),
{
    match s.nodes@[c].kind {
        NodeKind::Spacer { min_length, priority } => {
            let v = if axis_w { vw(c) } else { vh(c) };
            lemma_has_shape_mono(
                pre,
                post,
                seq![(v, 1)],
                -(min_length as int),
                LinOp::Ge,
                Priority::Required,
            );
            lemma_has_shape_mono(pre, post, seq![(v, 1)], -(min_length as int), LinOp::Eq, priority);
        },
        _ => (),
    }
}

/// Emits the cross-axis alignment of one vertical-stack child.
fn emit_valign(cons: &mut Vec<LinCon>, i: usize, c: usize, a: Alignment, Ghost(nv): Ghost<nat>)
    requires
        i <= 100_000_001,
        c <= 100_000_001,
        8 * i + 7 < nv,
        8 * c + 7 < nv,
        cons_wf(old(cons)@, nv),
    ensures
        extends(old(cons)@, final(cons)@),
        cons_wf(final(cons)@, nv),
        valign_fact(final(cons)@, i as int, c as int, a),
{
    match a {
        Alignment::Leading => {
            emit_pair(cons, slot_x(c), slot_x(i), 0, Priority::Required, Ghost(nv));
        },
        Alignment::Center => {
            emit_pair(cons, slot_cx(c), slot_cx(i), 0, Priority::Required, Ghost(nv));
        },
        Alignment::Trailing => {
            emit_pair(cons, slot_right(c), slot_right(i), 0, Priority::Required, Ghost(nv));
        },
        _ => {},
    }
}

/// Emits the cross-axis alignment of one horizontal-stack child.
fn emit_halign(cons: &mut Vec<LinCon>, i: usize, c: usize, a: Alignment, Ghost(nv): Ghost<nat>)
    requires
        i <= 100_000_001,
        c <= 100_000_001,
        8 * i + 7 < nv,
        8 * c + 7 < nv,
        cons_wf(old(cons)@, nv),
    ensures
        extends(old(cons)@, final(cons)@),
        cons_wf(final(cons)@, nv),
        halign_fact(final(cons)@, i as int, c as int, a),
{
    match a {
        Alignment::Top => {
            emit_pair(cons, slot_y(c), slot_y(i), 0, Priority::Required, Ghost(nv));
        },
        Alignment::Center => {
            emit_pair(cons, slot_cy(c), slot_cy(i), 0, Priority::Required, Ghost(nv));
        },
        Alignment::Bottom => {
            emit_pair(cons, slot_bottom(c), slot_bottom(i), 0, Priority::Required, Ghost(nv));
        },
        _ => {},
    }
}

/// Emits a spacer child's main-axis constraints, if the child is a spacer.
fn emit_spacer_axis(cons: &mut Vec<LinCon>, scene: &Scene, c: usize, axis_w: bool, Ghost(
    nv,
): Ghost<nat>)
    requires
        scene_wf(*scene),
        c < scene.nodes@.len(),
        nv == 8 * (scene.nodes@.len() + 1),
        cons_wf(old(cons)@, nv),
    ensures
        extends(old(cons)@, final(cons)@),
        cons_wf(final(cons)@, nv),
        spacer_fact(*scene, final(cons)@, c as int, axis_w),
{
    proof {
        assert(node_wf(scene.nodes@[c as int], scene.nodes@.len()));
    }
    let sv: usize = if axis_w {
        slot_w(c)
    } else {
        slot_h(c)
    };
    match &scene.nodes[c].kind {
        NodeKind::Spacer { min_length, priority } => {
            let ghost mid0 = cons@;
            emit_size_bound(cons, sv, *min_length, LinOp::Ge, Priority::Required, Ghost(nv));
            let ghost mid = cons@;
            emit_size_value(cons, sv, *min_length, *priority, Ghost(nv));
            proof {
                let v = if axis_w { vw(c as int) } else { vh(c as int) };
                lemma_has_shape_mono(
                    mid,
                    cons@,
                    seq![(v, 1)],
                    -(*min_length as int),
                    LinOp::Ge,
                    Priority::Required,
                );
            }
        },
        _ => {},
    }
}

/// Emits the main-axis chain of a vertical stack.
#[verifier::rlimit(100)]
fn emit_chain_v(cons: &mut Vec<LinCon>, scene: &Scene, i: usize, spacing: i64, Ghost(nv): Ghost<
    nat,
>)
    requires
        scene_wf(*scene),
        i < scene.nodes@.len(),
        abs_i(spacing as int) <= LENGTH_BOUND,
        scene.nodes@[i as int].children@.len() >= 1,
        nv == 8 * (scene.nodes@.len() + 1),
        cons_wf(old(cons)@, nv),
    ensures
        extends(old(cons)@, final(cons)@),
        cons_wf(final(cons)@, nv),
        has_shape(
            final(cons)@,
            seq![(vy(scene.nodes@[i as int].children@[0] as int), 1), (vy(i as int), -1)],
            0,
            LinOp::Eq,
            Priority::Required,
        ),
        forall|k2: int|
            1 <= k2 < scene.nodes@[i as int].children@.len() ==> has_shape(
                final(cons)@,
                seq![(vy((#[trigger] scene.nodes@[i as int].children@[k2]) as int), 1),
                    (vbottom(scene.nodes@[i as int].children@[k2 - 1] as int), -1)],
                -(spacing as int),
                LinOp::Eq,
                Priority::Required,
            ),
{
    let nch: usize = scene.nodes[i].children.len();
    let ghost ii = i as int;
    let ghost ch = scene.nodes@[ii].children@;
    proof {
        assert(node_wf(scene.nodes@[ii], scene.nodes@.len()));
    }
    let mut k: usize = 0;
    while k < nch
        invariant
            0 <= k <= nch,
            scene_wf(*scene),
            i < scene.nodes@.len(),
            ii == i as int,
            ch == scene.nodes@[ii].children@,
            nch == ch.len(),
            nch >= 1,
            abs_i(spacing as int) <= LENGTH_BOUND,
            nv == 8 * (scene.nodes@.len() + 1),
            cons_wf(cons@, nv),
            extends(old(cons)@, cons@),
            k >= 1 ==> has_shape(
                cons@,
                seq![(vy(ch[0] as int), 1), (vy(ii), -1)],
                0,
                LinOp::Eq,
                Priority::Required,
            ),
            forall|k2: int|
                1 <= k2 < k ==> has_shape(
                    cons@,
                    seq![(vy((#[trigger] ch[k2]) as int), 1), (vbottom(ch[k2 - 1] as int), -1)],
                    -(spacing as int),
                    LinOp::Eq,
                    Priority::Required,
                ),
        decreases nch - k,
    {
        let ghost head = cons@;
        let c: usize = scene.nodes[i].children[k];
        proof {
            assert(c < scene.nodes@.len());
        }
        if k == 0 {
            emit_pair(cons, slot_y(c), slot_y(i), 0, Priority::Required, Ghost(nv));
        } else {
            let prev: usize = scene.nodes[i].children[k - 1];
            proof {
                assert(prev < scene.nodes@.len());
            }
            emit_pair(cons, slot_y(c), slot_bottom(prev), -spacing, Priority::Required, Ghost(nv));
            proof {
                lemma_has_shape_mono(
                    head,
                    cons@,
                    seq![(vy(ch[0] as int), 1), (vy(ii), -1)],
                    0,
                    LinOp::Eq,
                    Priority::Required,
                );
            }
        }
        proof {
            lemma_extends_trans(old(cons)@, head, cons@);
            lemma_chain_foralls_v(head, cons@, ch, spacing as int, k as int);
        }
        k = k + 1;
    }
}

/// Emits the cross-axis alignment of every child of a vertical stack.
#[verifier::rlimit(100)]
fn emit_aligns_v(
    cons: &mut Vec<LinCon>,
    scene: &Scene,
    i: usize,
    alignment: Alignment,
    Ghost(nv): Ghost<nat>,
)
    requires
        scene_wf(*scene),
        i < scene.nodes@.len(),
        nv == 8 * (scene.nodes@.len() + 1),
        cons_wf(old(cons)@, nv),
    ensures
        extends(old(cons)@, final(cons)@),
        cons_wf(final(cons)@, nv),
        forall|k2: int|
            0 <= k2 < scene.nodes@[i as int].children@.len() ==> valign_fact(
                final(cons)@,
                i as int,
                (#[trigger] scene.nodes@[i as int].children@[k2]) as int,
                alignment,
            ),
{
    let nch: usize = scene.nodes[i].children.len();
    let ghost ii = i as int;
    let ghost ch = scene.nodes@[ii].children@;
    proof {
        assert(node_wf(scene.nodes@[ii], scene.nodes@.len()));
    }
    let mut k: usize = 0;
    while k < nch
        invariant
            0 <= k <= nch,
            scene_wf(*scene),
            i < scene.nodes@.len(),
            ii == i as int,
            ch == scene.nodes@[ii].children@,
            nch == ch.len(),
            nv == 8 * (scene.nodes@.len() + 1),
            cons_wf(cons@, nv),
            extends(old(cons)@, cons@),
            forall|k2: int| 0 <= k2 < k ==> valign_fact(cons@, ii, (#[trigger] ch[k2]) as int, alignment),
        decreases nch - k,
    {
        let ghost head = cons@;
        let c: usize = scene.nodes[i].children[k];
        proof {
            assert(c < scene.nodes@.len());
        }
        emit_valign(cons, i, c, alignment, Ghost(nv));
        proof {
            lemma_extends_trans(old(cons)@, head, cons@);
            lemma_align_foralls_v(head, cons@, ii, ch, alignment, k as int);
        }
        k = k + 1;
    }
}

/// Emits the spacer constraints of every child of a vertical stack.
#[verifier::rlimit(100)]
fn emit_spacers_v(cons: &mut Vec<LinCon>, scene: &Scene, i: usize, Ghost(nv): Ghost<nat>)
    requires
        scene_wf(*scene),
        i < scene.nodes@.len(),
        nv == 8 * (scene.nodes@.len() + 1),
        cons_wf(old(cons)@, nv),
    ensures
        extends(old(cons)@, final(cons)@),
        cons_wf(final(cons)@, nv),
        forall|k2: int|
            0 <= k2 < scene.nodes@[i as int].children@.len() ==> spacer_fact(
                *scene,
                final(cons)@,
                (#[trigger] scene.nodes@[i as int].children@[k2]) as int,
                false,
            ),
{
    let nch: usize = scene.nodes[i].children.len();
    let ghost ii = i as int;
    let ghost ch = scene.nodes@[ii].children@;
    proof {
        assert(node_wf(scene.nodes@[ii], scene.nodes@.len()));
    }
    let mut k: usize = 0;
    while k < nch
        invariant
            0 <= k <= nch,
            scene_wf(*scene),
            i < scene.nodes@.len(),
            ii == i as int,
            ch == scene.nodes@[ii].children@,
            nch == ch.len(),
            nv == 8 * (scene.nodes@.len() + 1),
            cons_wf(cons@, nv),
            extends(old(cons)@, cons@),
            forall|k2: int|
                0 <= k2 < k ==> spacer_fact(*scene, cons@, (#[trigger] ch[k2]) as int, false),
        decreases nch - k,
    {
        let ghost head = cons@;
        let c: usize = scene.nodes[i].children[k];
        proof {
            assert(c < scene.nodes@.len());
        }
        emit_spacer_axis(cons, scene, c, false, Ghost(nv));
        proof {
            lemma_extends_trans(old(cons)@, head, cons@);
            lemma_spacer_foralls_v(*scene, head, cons@, ch, k as int);
        }
        k = k + 1;
    }
}

/// Emits equal main-axis sizes between consecutive children (`FillEqually`).
#[verifier::rlimit(100)]
fn emit_fill_v(cons: &mut Vec<LinCon>, scene: &Scene, i: usize, Ghost(nv): Ghost<nat>)
    requires
        scene_wf(*scene),
        i < scene.nodes@.len(),
        nv == 8 * (scene.nodes@.len() + 1),
        cons_wf(old(cons)@, nv),
    ensures
        extends(old(cons)@, final(cons)@),
        cons_wf(final(cons)@, nv),
        forall|k2: int|
            1 <= k2 < scene.nodes@[i as int].children@.len() ==> has_shape(
                final(cons)@,
                seq![(vh((#[trigger] scene.nodes@[i as int].children@[k2]) as int), 1),
                    (vh(scene.nodes@[i as int].children@[k2 - 1] as int), -1)],
                0,
                LinOp::Eq,
                Priority::Medium,
            ),
{
    let nch: usize = scene.nodes[i].children.len();
    let ghost ii = i as int;
    let ghost ch = scene.nodes@[ii].children@;
    proof {
        assert(node_wf(scene.nodes@[ii], scene.nodes@.len()));
    }
    let mut k: usize = 1;
    while k < nch
        invariant
            1 <= k <= nch || (nch == 0 && k == 1),
            scene_wf(*scene),
            i < scene.nodes@.len(),
            ii == i as int,
            ch == scene.nodes@[ii].children@,
            nch == ch.len(),
            nv == 8 * (scene.nodes@.len() + 1),
            cons_wf(cons@, nv),
            extends(old(cons)@, cons@),
            forall|k2: int|
                1 <= k2 < k ==> has_shape(
                    cons@,
                    seq![(vh((#[trigger] ch[k2]) as int), 1), (vh(ch[k2 - 1] as int), -1)],
                    0,
                    LinOp::Eq,
                    Priority::Medium,
                ),
        decreases nch - k,
    {
        let ghost head = cons@;
        let c: usize = scene.nodes[i].children[k];
        let prev: usize = scene.nodes[i].children[k - 1];
        proof {
            assert(c < scene.nodes@.len());
            assert(prev < scene.nodes@.len());
        }
        emit_pair(cons, slot_h(c), slot_h(prev), 0, Priority::Medium, Ghost(nv));
        proof {
            lemma_extends_trans(old(cons)@, head, cons@);
            lemma_fill_foralls_v(head, cons@, ch, k as int);
        }
        k = k + 1;
    }
}

/// Emits the implicit constraints of a vertical stack: the main-axis chain,
/// the cross-axis alignment, spacer minimums, the derived main-axis length,
/// and equal child sizes for `FillEqually`.
#[verifier::rlimit(100)]
#[verifier::spinoff_prover]
fn emit_vstack_cons(
    cons: &mut Vec<LinCon>,
    scene: &Scene,
    i: usize,
    spacing: i64,
    alignment: Alignment,
    distribution: Distribution,
    Ghost(nv): Ghost<nat>,
)
    requires
        scene_wf(*scene),
        i < scene.nodes@.len(),
        abs_i(spacing as int) <= LENGTH_BOUND,
        scene.nodes@[i as int].children@.len() >= 1,
        nv == 8 * (scene.nodes@.len() + 1),
        cons_wf(old(cons)@, nv),
    ensures
        extends(old(cons)@, final(cons)@),
        cons_wf(final(cons)@, nv),
        vstack_facts(
            *scene,
            final(cons)@,
            i as int,
            scene.nodes@[i as int].children@,
            spacing as int,
            alignment,
            distribution,
        ),
{
    let nch: usize = scene.nodes[i].children.len();
    let ghost ii = i as int;
    let ghost ch = scene.nodes@[ii].children@;
    proof {
        assert(node_wf(scene.nodes@[ii], scene.nodes@.len()));
    }
    emit_chain_v(cons, scene, i, spacing, Ghost(nv));
    let ghost s1 = cons@;
    emit_aligns_v(cons, scene, i, alignment, Ghost(nv));
    let ghost s2 = cons@;
    emit_spacers_v(cons, scene, i, Ghost(nv));
    let ghost s3 = cons@;
    let fill_eq: bool = distribution == Distribution::FillEqually;
    if fill_eq {
        emit_fill_v(cons, scene, i, Ghost(nv));
    }
    let ghost s4 = cons@;
    // the stack's derived main-axis length
    let last: usize = scene.nodes[i].children[nch - 1];
    proof {
        assert(last < scene.nodes@.len());
    }
    let ghost l0 = cons@.len() as int;
    push_con3(
        cons,
        slot_h(i),
        1,
        slot_bottom(last),
        -1,
        slot_y(i),
        1,
        0,
        LinOp::Eq,
        Priority::Required,
        Ghost(nv),
    );
    proof {
        lemma_has_at(
            cons@,
            l0,
            seq![(vh(ii), 1), (vbottom(ch[nch - 1] as int), -1), (vy(ii), 1)],
            0,
            LinOp::Eq,
            Priority::Required,
        );
        lemma_extends_trans(s1, s2, s3);
        lemma_extends_trans(s1, s3, s4);
        lemma_extends_trans(s1, s4, cons@);
        lemma_extends_trans(s2, s3, s4);
        lemma_extends_trans(s2, s4, cons@);
        lemma_extends_trans(s3, s4, cons@);
        lemma_extends_trans(old(cons)@, s1, cons@);
        lemma_has_shape_mono(
            s1,
            cons@,
            seq![(vy(ch[0] as int), 1), (vy(ii), -1)],
            0,
            LinOp::Eq,
            Priority::Required,
        );
        lemma_chain_foralls_v(s1, cons@, ch, spacing as int, nch as int);
        lemma_align_foralls_v(s2, cons@, ii, ch, alignment, nch as int);
        lemma_spacer_foralls_v(*scene, s3, cons@, ch, nch as int);
        if distribution == Distribution::FillEqually {
            lemma_fill_foralls_v(s4, cons@, ch, nch as int);
        }
    }
}

/// Emits the main-axis chain of a horizontal stack.
#[verifier::rlimit(100)]
fn emit_chain_h(cons: &mut Vec<LinCon>, scene: &Scene, i: usize, spacing: i64, Ghost(nv): Ghost<
    nat,
>)
    requires
        scene_wf(*scene),
        i < scene.nodes@.len(),
        abs_i(spacing as int) <= LENGTH_BOUND,
        scene.nodes@[i as int].children@.len() >= 1,
        nv == 8 * (scene.nodes@.len() + 1),
        cons_wf(old(cons)@, nv),
    ensures
        extends(old(cons)@, final(cons)@),
        cons_wf(final(cons)@, nv),
        has_shape(
            final(cons)@,
            seq![(vx(scene.nodes@[i as int].children@[0] as int), 1), (vx(i as int), -1)],
            0,
            LinOp::Eq,
            Priority::Required,
        ),
        forall|k2: int|
            1 <= k2 < scene.nodes@[i as int].children@.len() ==> has_shape(
                final(cons)@,
                seq![(vx((#[trigger] scene.nodes@[i as int].children@[k2]) as int), 1),
                    (vright(scene.nodes@[i as int].children@[k2 - 1] as int), -1)],
                -(spacing as int),
                LinOp::Eq,
                Priority::Required,
            ),
{
    let nch: usize = scene.nodes[i].children.len();
    let ghost ii = i as int;
    let ghost ch = scene.nodes@[ii].children@;
    proof {
        assert(node_wf(scene.nodes@[ii], scene.nodes@.len()));
    }
    let mut k: usize = 0;
    while k < nch
        invariant
            0 <= k <= nch,
            scene_wf(*scene),
            i < scene.nodes@.len(),
            ii == i as int,
            ch == scene.nodes@[ii].children@,
            nch == ch.len(),
            nch >= 1,
            abs_i(spacing as int) <= LENGTH_BOUND,
            nv == 8 * (scene.nodes@.len() + 1),
            cons_wf(cons@, nv),
            extends(old(cons)@, cons@),
            k >= 1 ==> has_shape(
                cons@,
                seq![(vx(ch[0] as int), 1), (vx(ii), -1)],
                0,
                LinOp::Eq,
                Priority::Required,
            ),
            forall|k2: int|
                1 <= k2 < k ==> has_shape(
                    cons@,
                    seq![(vx((#[trigger] ch[k2]) as int), 1), (vright(ch[k2 - 1] as int), -1)],
                    -(spacing as int),
                    LinOp::Eq,
                    Priority::Required,
                ),
        decreases nch - k,
    {
        let ghost head = cons@;
        let c: usize = scene.nodes[i].children[k];
        proof {
            assert(c < scene.nodes@.len());
        }
        if k == 0 {
            emit_pair(cons, slot_x(c), slot_x(i), 0, Priority::Required, Ghost(nv));
        } else {
            let prev: usize = scene.nodes[i].children[k - 1];
            proof {
                assert(prev < scene.nodes@.len());
            }
            emit_pair(cons, slot_x(c), slot_right(prev), -spacing, Priority::Required, Ghost(nv));
            proof {
                lemma_has_shape_mono(
                    head,
                    cons@,
                    seq![(vx(ch[0] as int), 1), (vx(ii), -1)],
                    0,
                    LinOp::Eq,
                    Priority::Required,
                );
            }
        }
        proof {
            lemma_extends_trans(old(cons)@, head, cons@);
            lemma_chain_foralls_h(head, cons@, ch, spacing as int, k as int);
        }
        k = k + 1;
    }
}

/// Emits the cross-axis alignment of every child of a horizontal stack.
#[verifier::rlimit(100)]
fn emit_aligns_h(
    cons: &mut Vec<LinCon>,
    scene: &Scene,
    i: usize,
    alignment: Alignment,
    Ghost(nv): Ghost<nat>,
)
    requires
        scene_wf(*scene),
        i < scene.nodes@.len(),
        nv == 8 * (scene.nodes@.len() + 1),
        cons_wf(old(cons)@, nv),
    ensures
        extends(old(cons)@, final(cons)@),
        cons_wf(final(cons)@, nv),
        forall|k2: int|
            0 <= k2 < scene.nodes@[i as int].children@.len() ==> halign_fact(
                final(cons)@,
                i as int,
                (#[trigger] scene.nodes@[i as int].children@[k2]) as int,
                alignment,
            ),
{
    let nch: usize = scene.nodes[i].children.len();
    let ghost ii = i as int;
    let ghost ch = scene.nodes@[ii].children@;
    proof {
        assert(node_wf(scene.nodes@[ii], scene.nodes@.len()));
    }
    let mut k: usize = 0;
    while k < nch
        invariant
            0 <= k <= nch,
            scene_wf(*scene),
            i < scene.nodes@.len(),
            ii == i as int,
            ch == scene.nodes@[ii].children@,
            nch == ch.len(),
            nv == 8 * (scene.nodes@.len() + 1),
            cons_wf(cons@, nv),
            extends(old(cons)@, cons@),
            forall|k2: int| 0 <= k2 < k ==> halign_fact(cons@, ii, (#[trigger] ch[k2]) as int, alignment),
        decreases nch - k,
    {
        let ghost head = cons@;
        let c: usize = scene.nodes[i].children[k];
        proof {
            assert(c < scene.nodes@.len());
        }
        emit_halign(cons, i, c, alignment, Ghost(nv));
        proof {
            lemma_extends_trans(old(cons)@, head, cons@);
            lemma_align_foralls_h(head, cons@, ii, ch, alignment, k as int);
        }
        k = k + 1;
    }
}

/// Emits the spacer constraints of every child of a horizontal stack.
#[verifier::rlimit(100)]
fn emit_spacers_h(cons: &mut Vec<LinCon>, scene: &Scene, i: usize, Ghost(nv): Ghost<nat>)
    requires
        scene_wf(*scene),
        i < scene.nodes@.len(),
        nv == 8 * (scene.nodes@.len() + 1),
        cons_wf(old(cons)@, nv),
    ensures
        extends(old(cons)@, final(cons)@),
        cons_wf(final(cons)@, nv),
        forall|k2: int|
            0 <= k2 < scene.nodes@[i as int].children@.len() ==> spacer_fact(
                *scene,
                final(cons)@,
                (#[trigger] scene.nodes@[i as int].children@[k2]) as int,
                true,
            ),
{
    let nch: usize = scene.nodes[i].children.len();
    let ghost ii = i as int;
    let ghost ch = scene.nodes@[ii].children@;
    proof {
        assert(node_wf(scene.nodes@[ii], scene.nodes@.len()));
    }
    let mut k: usize = 0;
    while k < nch
        invariant
            0 <= k <= nch,
            scene_wf(*scene),
            i < scene.nodes@.len(),
            ii == i as int,
            ch == scene.nodes@[ii].children@,
            nch == ch.len(),
            nv == 8 * (scene.nodes@.len() + 1),
            cons_wf(cons@, nv),
            extends(old(cons)@, cons@),
            forall|k2: int|
                0 <= k2 < k ==> spacer_fact(*scene, cons@, (#[trigger] ch[k2]) as int, true),
        decreases nch - k,
    {
        let ghost head = cons@;
        let c: usize = scene.nodes[i].children[k];
        proof {
            assert(c < scene.nodes@.len());
        }
        emit_spacer_axis(cons, scene, c, true, Ghost(nv));
        proof {
            lemma_extends_trans(old(cons)@, head, cons@);
            lemma_spacer_foralls_h(*scene, head, cons@, ch, k as int);
        }
        k = k + 1;
    }
}

/// Emits equal main-axis sizes between consecutive children (`FillEqually`).
#[verifier::rlimit(100)]
fn emit_fill_h(cons: &mut Vec<LinCon>, scene: &Scene, i: usize, Ghost(nv): Ghost<nat>)
    requires
        scene_wf(*scene),
        i < scene.nodes@.len(),
        nv == 8 * (scene.nodes@.len() + 1),
        cons_wf(old(cons)@, nv),
    ensures
        extends(old(cons)@, final(cons)@),
        cons_wf(final(cons)@, nv),
        forall|k2: int|
            1 <= k2 < scene.nodes@[i as int].children@.len() ==> has_shape(
                final(cons)@,
                seq![(vw((#[trigger] scene.nodes@[i as int].children@[k2]) as int), 1),
                    (vw(scene.nodes@[i as int].children@[k2 - 1] as int), -1)],
                0,
                LinOp::Eq,
                Priority::Medium,
            ),
{
    let nch: usize = scene.nodes[i].children.len();
    let ghost ii = i as int;
    let ghost ch = scene.nodes@[ii].children@;
    proof {
        assert(node_wf(scene.nodes@[ii], scene.nodes@.len()));
    }
    let mut k: usize = 1;
    while k < nch
        invariant
            1 <= k <= nch || (nch == 0 && k == 1),
            scene_wf(*scene),
            i < scene.nodes@.len(),
            ii == i as int,
            ch == scene.nodes@[ii].children@,
            nch == ch.len(),
            nv == 8 * (scene.nodes@.len() + 1),
            cons_wf(cons@, nv),
            extends(old(cons)@, cons@),
            forall|k2: int|
                1 <= k2 < k ==> has_shape(
                    cons@,
                    seq![(vw((#[trigger] ch[k2]) as int), 1), (vw(ch[k2 - 1] as int), -1)],
                    0,
                    LinOp::Eq,
                    Priority::Medium,
                ),
        decreases nch - k,
    {
        let ghost head = cons@;
        let c: usize = scene.nodes[i].children[k];
        let prev: usize = scene.nodes[i].children[k - 1];
        proof {
            assert(c < scene.nodes@.len());
            assert(prev < scene.nodes@.len());
        }
        emit_pair(cons, slot_w(c), slot_w(prev), 0, Priority::Medium, Ghost(nv));
        proof {
            lemma_extends_trans(old(cons)@, head, cons@);
            lemma_fill_foralls_h(head, cons@, ch, k as int);
        }
        k = k + 1;
    }
}

/// Emits the implicit constraints of a horizontal stack: the main-axis chain,
/// the cross-axis alignment, spacer minimums, the derived main-axis length,
/// and equal child sizes for `FillEqually`.
#[verifier::rlimit(100)]
#[verifier::spinoff_prover]
fn emit_hstack_cons(
    cons: &mut Vec<LinCon>,
    scene: &Scene,
    i: usize,
    spacing: i64,
    alignment: Alignment,
    distribution: Distribution,
    Ghost(nv): Ghost<nat>,
)
    requires
        scene_wf(*scene),
        i < scene.nodes@.len(),
        abs_i(spacing as int) <= LENGTH_BOUND,
        scene.nodes@[i as int].children@.len() >= 1,
        nv == 8 * (scene.nodes@.len() + 1),
        cons_wf(old(cons)@, nv),
    ensures
        extends(old(cons)@, final(cons)@),
        cons_wf(final(cons)@, nv),
        hstack_facts(
            *scene,
            final(cons)@,
            i as int,
            scene.nodes@[i as int].children@,
            spacing as int,
            alignment,
            distribution,
        ),
{
    let nch: usize = scene.nodes[i].children.len();
    let ghost ii = i as int;
    let ghost ch = scene.nodes@[ii].children@;
    proof {
        assert(node_wf(scene.nodes@[ii], scene.nodes@.len()));
    }
    emit_chain_h(cons, scene, i, spacing, Ghost(nv));
    let ghost s1 = cons@;
    emit_aligns_h(cons, scene, i, alignment, Ghost(nv));
    let ghost s2 = cons@;
    emit_spacers_h(cons, scene, i, Ghost(nv));
    let ghost s3 = cons@;
    let fill_eq: bool = distribution == Distribution::FillEqually;
    if fill_eq {
        emit_fill_h(cons, scene, i, Ghost(nv));
    }
    let ghost s4 = cons@;
    // the stack's derived main-axis length
    let last: usize = scene.nodes[i].children[nch - 1];
    proof {
        assert(last < scene.nodes@.len());
    }
    let ghost l0 = cons@.len() as int;
    push_con3(
        cons,
        slot_w(i),
        1,
        slot_right(last),
        -1,
        slot_x(i),
        1,
        0,
        LinOp::Eq,
        Priority::Required,
        Ghost(nv),
    );
    proof {
        lemma_has_at(
            cons@,
            l0,
            seq![(vw(ii), 1), (vright(ch[nch - 1] as int), -1), (vx(ii), 1)],
            0,
            LinOp::Eq,
            Priority::Required,
        );
        lemma_extends_trans(s1, s2, s3);
        lemma_extends_trans(s1, s3, s4);
        lemma_extends_trans(s1, s4, cons@);
        lemma_extends_trans(s2, s3, s4);
        lemma_extends_trans(s2, s4, cons@);
        lemma_extends_trans(s3, s4, cons@);
        lemma_extends_trans(old(cons)@, s1, cons@);
        lemma_has_shape_mono(
            s1,
            cons@,
            seq![(vx(ch[0] as int), 1), (vx(ii), -1)],
            0,
            LinOp::Eq,
            Priority::Required,
        );
        lemma_chain_foralls_h(s1, cons@, ch, spacing as int, nch as int);
        lemma_align_foralls_h(s2, cons@, ii, ch, alignment, nch as int);
        lemma_spacer_foralls_h(*scene, s3, cons@, ch, nch as int);
        if distribution == Distribution::FillEqually {
            lemma_fill_foralls_h(s4, cons@, ch, nch as int);
        }
    }
}

/// Transfers the slot facts of the first `hi` slots.
proof fn lemma_slot_foralls(pre: Seq<LinCon>, post: Seq<LinCon>, hi: int)
    requires
        extends(pre, post),
        forall|sl: int| 0 <= sl < hi ==> slot_facts(pre, sl),
    ensures
        forall|sl: int| 0 <= sl < hi ==> slot_facts(post, sl),
{
    assert forall|sl: int| 0 <= sl < hi implies slot_facts(post, sl) by {
        lemma_slot_facts_mono(pre, post, sl);
    }
}

/// Transfers the user-constraint facts of every node before `i`, and of the
/// first `j` constraints of node `i`.
proof fn lemma_user_foralls(s: Scene, pre: Seq<LinCon>, post: Seq<LinCon>, i: int, j: int)
    requires
        extends(pre, post),
        0 <= i <= s.nodes@.len(),
        forall|a: int, b: int|
            0 <= a < i && 0 <= b < s.nodes@[a].constraints@.len() ==> user_fact(
                s,
                pre,
                a,
                #[trigger] s.nodes@[a].constraints@[b],
            ),
        i < s.nodes@.len() ==> forall|b: int|
            0 <= b < j && b < s.nodes@[i].constraints@.len() ==> user_fact(
                s,
                pre,
                i,
                #[trigger] s.nodes@[i].constraints@[b],
            ),
    ensures
        forall|a: int, b: int|
            0 <= a < i && 0 <= b < s.nodes@[a].constraints@.len() ==> user_fact(
                s,
                post,
                a,
                #[trigger] s.nodes@[a].constraints@[b],
            ),
        i < s.nodes@.len() ==> forall|b: int|
            0 <= b < j && b < s.nodes@[i].constraints@.len() ==> user_fact(
                s,
                post,
                i,
                #[trigger] s.nodes@[i].constraints@[b],
            ),
{
    assert forall|a: int, b: int|
        0 <= a < i && 0 <= b < s.nodes@[a].constraints@.len() implies user_fact(
        s,
        post,
        a,
        #[trigger] s.nodes@[a].constraints@[b],
    ) by {
        lemma_user_fact_mono(s, pre, post, a, s.nodes@[a].constraints@[b]);
    }
    if i < s.nodes@.len() {
        assert forall|b: int|
            0 <= b < j && b < s.nodes@[i].constraints@.len() implies user_fact(
            s,
            post,
            i,
            #[trigger] s.nodes@[i].constraints@[b],
        ) by {
            lemma_user_fact_mono(s, pre, post, i, s.nodes@[i].constraints@[b]);
        }
    }
}

/// Transfers the intrinsic facts of the first `hi` nodes.
proof fn lemma_intrinsic_foralls(
    s: Scene,
    intr: Seq<Option<(i64, i64)>>,
    pre: Seq<LinCon>,
    post: Seq<LinCon>,
    hi: int,
)
    requires
        extends(pre, post),
        forall|a: int| 0 <= a < hi ==> intrinsic_fact(s, intr, pre, a),
    ensures
        forall|a: int| 0 <= a < hi ==> intrinsic_fact(s, intr, post, a),
{
    assert forall|a: int| 0 <= a < hi implies intrinsic_fact(s, intr, post, a) by {
        lemma_intrinsic_fact_mono(s, intr, pre, post, a);
    }
}

/// Transfers the stack facts of the first `hi` nodes.
proof fn lemma_stack_foralls(s: Scene, pre: Seq<LinCon>, post: Seq<LinCon>, hi: int)
    requires
        extends(pre, post),
        forall|a: int| 0 <= a < hi ==> stack_fact(s, pre, a),
    ensures
        forall|a: int| 0 <= a < hi ==> stack_fact(s, post, a),
{
    assert forall|a: int| 0 <= a < hi implies stack_fact(s, post, a) by {
        lemma_stack_fact_mono(s, pre, post, a);
    }
}

/// Emits the implicit constraints of a stack node, dispatching on its kind.
fn emit_stack(cons: &mut Vec<LinCon>, scene: &Scene, i: usize, Ghost(nv): Ghost<nat>)
    requires
        scene_wf(*scene),
        i < scene.nodes@.len(),
        nv == 8 * (scene.nodes@.len() + 1),
        cons_wf(old(cons)@, nv),
    ensures
        extends(old(cons)@, final(cons)@),
        cons_wf(final(cons)@, nv),
        stack_fact(*scene, final(cons)@, i as int),
{
    let ghost ii = i as int;
    proof {
        assert(node_wf(scene.nodes@[ii], scene.nodes@.len()));
    }
    let nch: usize = scene.nodes[i].children.len();
    let props: Option<(bool, i64, Alignment, Distribution)> = match &scene.nodes[i].kind {
        NodeKind::VStack { properties } => Some(
            (true, properties.spacing, properties.alignment, properties.distribution),
        ),
        NodeKind::HStack { properties } => Some(
            (false, properties.spacing, properties.alignment, properties.distribution),
        ),
        _ => None,
    };
    match props {
        Some((vertical, spacing, alignment, distribution)) => {
            if nch >= 1 {
                if vertical {
                    emit_vstack_cons(cons, scene, i, spacing, alignment, distribution, Ghost(nv));
                } else {
                    emit_hstack_cons(cons, scene, i, spacing, alignment, distribution, Ghost(nv));
                }
            }
        },
        Option::None => {
            let is_z: bool = match &scene.nodes[i].kind {
                NodeKind::ZStack { .. } => true,
                _ => false,
            };
            if is_z {
                let ghost ch = scene.nodes@[ii].children@;
                let mut k: usize = 0;
                while k < nch
                    invariant
                        0 <= k <= nch,
                        scene_wf(*scene),
                        i < scene.nodes@.len(),
                        ii == i as int,
                        ch == scene.nodes@[ii].children@,
                        nch == ch.len(),
                        nv == 8 * (scene.nodes@.len() + 1),
                        cons_wf(cons@, nv),
                        extends(old(cons)@, cons@),
                        forall|k2: int|
                            0 <= k2 < k ==> {
                                let c = (#[trigger] ch[k2]) as int;
                                &&& has_shape(cons@, seq![(vx(c), 1), (vx(ii), -1)], 0, LinOp::Eq, Priority::Low)
                                &&& has_shape(cons@, seq![(vy(c), 1), (vy(ii), -1)], 0, LinOp::Eq, Priority::Low)
                                &&& has_shape(cons@, seq![(vw(c), 1), (vw(ii), -1)], 0, LinOp::Eq, Priority::Low)
                                &&& has_shape(cons@, seq![(vh(c), 1), (vh(ii), -1)], 0, LinOp::Eq, Priority::Low)
                            },
                    decreases nch - k,
                {
                    let ghost head = cons@;
                    let c: usize = scene.nodes[i].children[k];
                    proof {
                        assert(c < scene.nodes@.len());
                    }
                    emit_zstack_child(cons, i, c, Ghost(nv));
                    proof {
                        assert forall|k2: int| 0 <= k2 < k implies {
                            let c2 = (#[trigger] ch[k2]) as int;
                            &&& has_shape(cons@, seq![(vx(c2), 1), (vx(ii), -1)], 0, LinOp::Eq, Priority::Low)
                            &&& has_shape(cons@, seq![(vy(c2), 1), (vy(ii), -1)], 0, LinOp::Eq, Priority::Low)
                            &&& has_shape(cons@, seq![(vw(c2), 1), (vw(ii), -1)], 0, LinOp::Eq, Priority::Low)
                            &&& has_shape(cons@, seq![(vh(c2), 1), (vh(ii), -1)], 0, LinOp::Eq, Priority::Low)
                        } by {
                            let c2 = ch[k2] as int;
                            lemma_has_shape_mono(head, cons@, seq![(vx(c2), 1), (vx(ii), -1)], 0, LinOp::Eq, Priority::Low);
                            lemma_has_shape_mono(head, cons@, seq![(vy(c2), 1), (vy(ii), -1)], 0, LinOp::Eq, Priority::Low);
                            lemma_has_shape_mono(head, cons@, seq![(vw(c2), 1), (vw(ii), -1)], 0, LinOp::Eq, Priority::Low);
                            lemma_has_shape_mono(head, cons@, seq![(vh(c2), 1), (vh(ii), -1)], 0, LinOp::Eq, Priority::Low);
                        }
                    }
                    k = k + 1;
                }
            }
        },
    }
}


/// Resolves a named target, honoring the reserved canvas id.
fn resolve_id_or_canvas(scene: &Scene, target: &ElementId) -> (r: Option<usize>)
    requires
        scene_wf(*scene),
    ensures
        match r {
            Some(t) => spec_target_slot(*scene, Some(*target)) == Some(t as int) && t
                <= scene.nodes@.len(),
            Option::None => spec_target_slot(*scene, Some(*target)) is None,
        },
{
    if is_canvas_id(target) {
        Some(scene.nodes.len())
    } else {
        resolve_id(&scene.nodes, target)
    }
}

/// `Some(error)` when the named target does not resolve.
fn named_target_err(scene: &Scene, target: &ElementId) -> (r: Option<LowerError>)
    requires
        scene_wf(*scene),
    ensures
        r is None <==> spec_target_slot(*scene, Some(*target)) is Some,
        r matches Some(e) ==> (e matches LowerError::ElementNotFound(id) && spec_target_slot(
            *scene,
            Some(id),
        ) is None),
{
    if is_canvas_id(target) {
        return None;
    }
    match resolve_id(&scene.nodes, target) {
        Some(_) => None,
        Option::None => Some(LowerError::ElementNotFound(target.clone())),
    }
}

/// Lowers a scene, with per-node intrinsic sizes, to a constraint system.
///
/// Succeeds exactly when every constraint target resolves and no baseline
/// alignment occurs; the produced system contains the constraints promised
/// by [`lowered_ok`] and stays within the solver's working range.
pub fn lower(scene: &Scene, intrinsics: &Vec<Option<(i64, i64)>>) -> (r: Result<
    ConstraintSystem,
    LowerError,
>)
    requires
        scene_wf(*scene),
        intrinsics@.len() == scene.nodes@.len(),
        forall|a: int|
            0 <= a < intrinsics@.len() ==> ((#[trigger] intrinsics@[a]) matches Some(wh) ==> 0
                <= wh.0 <= LENGTH_BOUND && 0 <= wh.1 <= LENGTH_BOUND),
    ensures
        r is Ok <==> scene_lowerable(*scene),
        r matches Ok(sys) ==> {
            &&& sys.n_vars == 8 * (scene.nodes@.len() + 1)
            &&& sys_wf(sys)
            &&& lowered_ok(*scene, intrinsics@, sys.cons@)
        },
        r matches Err(e) ==> match e {
            LowerError::ElementNotFound(id) => spec_target_slot(*scene, Some(id)) is None,
            LowerError::InvalidConstraint(nid) => exists|a: int, b: int|
                0 <= a < scene.nodes@.len() && 0 <= b < scene.nodes@[a].constraints@.len()
                    && scene.nodes@[a].id == nid && ((#[trigger] scene.nodes@[a].constraints@[b]).constraint_type matches
                ConstraintType::AlignBaseline { .. }),
        },
{
    match validate_scene_targets(scene) {
        Ok(()) => {},
        Err(e) => {
            return Err(e);
        },
    }
    let len: usize = scene.nodes.len();
    let nv_exec: usize = 8 * (len + 1);
    let ghost nv = nv_exec as nat;
    let mut cons: Vec<LinCon> = Vec::new();
    emit_canvas(&mut cons, scene, Ghost(nv));
    // defining identities and nonnegative sizes for every slot
    let mut sl: usize = 0;
    while sl <= len
        invariant
            0 <= sl <= len + 1,
            len == scene.nodes@.len(),
            len <= 100_000_000,
            scene_wf(*scene),
            nv == 8 * (len + 1),
            cons_wf(cons@, nv),
            canvas_facts(*scene, cons@),
            forall|s2: int| 0 <= s2 < sl ==> slot_facts(cons@, s2),
        decreases len + 1 - sl,
    {
        let ghost head = cons@;
        emit_slot(&mut cons, sl, Ghost(nv));
        proof {
            lemma_canvas_facts_mono(*scene, head, cons@);
            lemma_slot_foralls(head, cons@, sl as int);
        }
        sl = sl + 1;
    }
    // each node's own constraints, then its intrinsic size
    let mut i: usize = 0;
    while i < len
        invariant
            0 <= i <= len,
            len == scene.nodes@.len(),
            scene_wf(*scene),
            scene_lowerable(*scene),
            intrinsics@.len() == len,
            forall|a: int|
                0 <= a < intrinsics@.len() ==> ((#[trigger] intrinsics@[a]) matches Some(wh) ==> 0
                    <= wh.0 <= LENGTH_BOUND && 0 <= wh.1 <= LENGTH_BOUND),
            nv == 8 * (len + 1),
            cons_wf(cons@, nv),
            canvas_facts(*scene, cons@),
            forall|s2: int| 0 <= s2 <= len ==> slot_facts(cons@, s2),
            forall|a: int, b: int|
                0 <= a < i && 0 <= b < scene.nodes@[a].constraints@.len() ==> user_fact(
                    *scene,
                    cons@,
                    a,
                    #[trigger] scene.nodes@[a].constraints@[b],
                ),
            forall|a: int| 0 <= a < i ==> intrinsic_fact(*scene, intrinsics@, cons@, a),
        decreases len - i,
    {
        let m: usize = scene.nodes[i].constraints.len();
        let mut j: usize = 0;
        while j < m
            invariant
                0 <= j <= m,
                0 <= i < len,
                len == scene.nodes@.len(),
                m == scene.nodes@[i as int].constraints@.len(),
                scene_wf(*scene),
                scene_lowerable(*scene),
                nv == 8 * (len + 1),
                cons_wf(cons@, nv),
                canvas_facts(*scene, cons@),
                forall|s2: int| 0 <= s2 <= len ==> slot_facts(cons@, s2),
                forall|a: int, b: int|
                    0 <= a < i && 0 <= b < scene.nodes@[a].constraints@.len() ==> user_fact(
                        *scene,
                        cons@,
                        a,
                        #[trigger] scene.nodes@[a].constraints@[b],
                    ),
                forall|b: int|
                    0 <= b < j ==> user_fact(
                        *scene,
                        cons@,
                        i as int,
                        #[trigger] scene.nodes@[i as int].constraints@[b],
                    ),
                forall|a: int| 0 <= a < i ==> intrinsic_fact(*scene, intrinsics@, cons@, a),
            decreases m - j,
        {
            let ghost head = cons@;
            proof {
                assert(node_wf(scene.nodes@[i as int], scene.nodes@.len()));
                assert(constraint_wf(scene.nodes@[i as int].constraints@[j as int]));
            }
            emit_user(&mut cons, scene, i, &scene.nodes[i].constraints[j], Ghost(nv));
            proof {
                lemma_canvas_facts_mono(*scene, head, cons@);
                lemma_slot_foralls(head, cons@, len + 1);
                lemma_user_foralls(*scene, head, cons@, i as int, j as int);
                lemma_intrinsic_foralls(*scene, intrinsics@, head, cons@, i as int);
            }
            j = j + 1;
        }
        let intr: Option<(i64, i64)> = intrinsics[i];
        match intr {
            Some(wh) => {
                let ghost head = cons@;
                emit_intrinsic(&mut cons, scene, i, wh, Ghost(nv));
                proof {
                    lemma_canvas_facts_mono(*scene, head, cons@);
                    lemma_slot_foralls(head, cons@, len + 1);
                    lemma_user_foralls(*scene, head, cons@, i as int, m as int);
                    lemma_intrinsic_foralls(*scene, intrinsics@, head, cons@, i as int);
                }
            },
            Option::None => {},
        }
        i = i + 1;
    }
    // the stacks' implicit constraints
    let mut i2: usize = 0;
    while i2 < len
        invariant
            0 <= i2 <= len,
            len == scene.nodes@.len(),
            scene_wf(*scene),
            scene_lowerable(*scene),
            intrinsics@.len() == len,
            nv == 8 * (len + 1),
            cons_wf(cons@, nv),
            canvas_facts(*scene, cons@),
            forall|s2: int| 0 <= s2 <= len ==> slot_facts(cons@, s2),
            forall|a: int, b: int|
                0 <= a < len && 0 <= b < scene.nodes@[a].constraints@.len() ==> user_fact(
                    *scene,
                    cons@,
                    a,
                    #[trigger] scene.nodes@[a].constraints@[b],
                ),
            forall|a: int| 0 <= a < len ==> intrinsic_fact(*scene, intrinsics@, cons@, a),
            forall|a: int| 0 <= a < i2 ==> stack_fact(*scene, cons@, a),
        decreases len - i2,
    {
        let ghost head = cons@;
        emit_stack(&mut cons, scene, i2, Ghost(nv));
        proof {
            lemma_canvas_facts_mono(*scene, head, cons@);
            lemma_slot_foralls(head, cons@, len + 1);
            lemma_user_foralls(*scene, head, cons@, len as int, 0);
            lemma_intrinsic_foralls(*scene, intrinsics@, head, cons@, len as int);
            lemma_stack_foralls(*scene, head, cons@, i2 as int);
        }
        i2 = i2 + 1;
    }
    Ok(ConstraintSystem { n_vars: nv_exec, cons })
}

} // verus!


