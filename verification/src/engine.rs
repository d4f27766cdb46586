//! The layout engine: lowers a scene, solves the system, and extracts one
//! frame per node.
//!
//! Sizes are clamped at zero during extraction, so every computed frame has
//! nonnegative width and height.  On success the engine guarantees that a
//! valuation exists that satisfies every `Required` constraint of the lowered
//! system and that the frames are read off that valuation; the lemmas at the
//! end of this module derive from those guarantees what the constraint table
//! promises — a required fixed width is met exactly, consecutive stack
//! children sit exactly one spacing apart, and a node centered on the canvas
//! splits the leftover space evenly.

use vstd::prelude::*;
use crate::geom::{Rect, Size, abs_i};
use crate::linear::{ConstraintSystem, LinCon, LinOp, LinTerm, con_sat, sat_required,
    terms_slack, terms_sum, SOL_BOUND};
use crate::lower::{LowerError, has_shape, con_matches, lowered_ok, lower, scene_lowerable,
    spec_target_slot, vx, vy, vw, vh, vcx, vbottom};
use crate::scene::{ComputedLayout, ConstraintType, ElementId, NodeKind, Priority, Scene, scene_wf,
    LENGTH_BOUND};
use crate::solve::{ConflictInfo, pins_value, solve};

verus! {

/// Why a layout could not be computed.
#[derive(Clone, Debug)]
pub enum LayoutError {
    /// A constraint targets this id, and no node carries it.
    ElementNotFound(ElementId),
    /// The node with this id carries a constraint the solver cannot lower.
    InvalidConstraint(ElementId),
    /// The `Required` constraints could not all be satisfied.
    Unsatisfiable(ConflictInfo),
}

/// How the frames of a computed layout relate to a solver valuation: each
/// node's frame is read off its slot's variables, sizes clamped at zero.
pub open spec fn frames_of_valuation(s: Scene, vals: Seq<i64>, cl: ComputedLayout) -> bool {
    &&& vals.len() == 8 * (s.nodes@.len() + 1)
    &&& cl.element_frames@.len() == s.nodes@.len()
    &&& forall|i: int|
        0 <= i < s.nodes@.len() ==> {
            let fr = (#[trigger] cl.element_frames@[i]).1;
            &&& cl.element_frames@[i].0@ == s.nodes@[i].id@
            &&& fr.x == vals[vx(i)]
            &&& fr.y == vals[vy(i)]
            &&& fr.width == if vals[vw(i)] >= 0 { vals[vw(i)] as int } else { 0int }
            &&& fr.height == if vals[vh(i)] >= 0 { vals[vh(i)] as int } else { 0int }
        }
}

/// The full promise of a successful solve: some valuation satisfies every
/// `Required` constraint of some lowering of the scene, and the frames are
/// read off it.
pub open spec fn layout_valid(s: Scene, intr: Seq<Option<(i64, i64)>>, cl: ComputedLayout) -> bool {
    exists|cons: Seq<LinCon>, vals: Seq<i64>|
        {
            &&& #[trigger] lowered_ok(s, intr, cons)
            &&& #[trigger] sat_required(cons, vals)
            &&& forall|j: int| 0 <= j < vals.len() ==> abs_i((#[trigger] vals[j]) as int) <= SOL_BOUND
            &&& frames_of_valuation(s, vals, cl)
        }
}

/// Reads the frames off a valuation, clamping sizes at zero.
fn extract_frames(scene: &Scene, vals: &Vec<i64>) -> (cl: ComputedLayout)
    requires
        scene_wf(*scene),
        vals@.len() == 8 * (scene.nodes@.len() + 1),
    ensures
        frames_of_valuation(*scene, vals@, cl),
        cl.canvas_size.width == scene.canvas.width,
        cl.canvas_size.height == scene.canvas.height,
        forall|i: int|
            0 <= i < cl.element_frames@.len() ==> (#[trigger] cl.element_frames@[i]).1.width >= 0
                && cl.element_frames@[i].1.height >= 0,
{
    let len: usize = scene.nodes.len();
    let mut cl: ComputedLayout = ComputedLayout::new(
        Size { width: scene.canvas.width, height: scene.canvas.height },
    );
    let mut i: usize = 0;
    while i < len
        invariant
            0 <= i <= len,
            len == scene.nodes@.len(),
            len <= 100_000_000,
            scene_wf(*scene),
            vals@.len() == 8 * (len + 1),
            cl.element_frames@.len() == i,
            cl.canvas_size.width == scene.canvas.width,
            cl.canvas_size.height == scene.canvas.height,
            forall|a: int|
                0 <= a < i ==> {
                    let fr = (#[trigger] cl.element_frames@[a]).1;
                    &&& cl.element_frames@[a].0@ == scene.nodes@[a].id@
                    &&& fr.x == vals@[vx(a)]
                    &&& fr.y == vals@[vy(a)]
                    &&& fr.width == if vals@[vw(a)] >= 0 { vals@[vw(a)] as int } else { 0int }
                    &&& fr.height == if vals@[vh(a)] >= 0 { vals@[vh(a)] as int } else { 0int }
                },
        decreases len - i,
    {
        let base: usize = 8 * i;
        let w_raw: i64 = vals[base + 2];
        let h_raw: i64 = vals[base + 3];
        let frame: Rect = Rect {
            x: vals[base],
            y: vals[base + 1],
            width: if w_raw >= 0 { w_raw } else { 0 },
            height: if h_raw >= 0 { h_raw } else { 0 },
        };
        cl.set_frame(scene.nodes[i].id.clone(), frame);
        proof {
            // String's clone keeps the characters.
            assert(cl.element_frames@.last().0@ == scene.nodes@[i as int].id@);
        }
        i = i + 1;
    }
    cl
}

/// Computes the layout of a scene: every node's frame, from the constraint
/// system described in the lowering module.
///
/// `intrinsics` carries, per node, the measured content size for text and
/// image nodes (`None` elsewhere).  Succeeds exactly when the scene lowers
/// (targets resolve, no baseline alignment) and the solver finds a valuation
/// meeting every `Required` constraint; the frames then come from such a
/// valuation, with sizes clamped at zero, so every frame is nonnegative.
/// That the solver finds a valuation whenever one exists — and that it
/// honors soft constraints such as the `Medium` intrinsic sizes when nothing
/// outranks them — is the search's behavior, exercised by the scenario
/// tests, not a machine-checked clause; a two-value conflict report carries
/// two distinct values whose rejected side a required unit equality of the
/// lowered system demands verbatim.
pub fn solve_layout(scene: &Scene, intrinsics: &Vec<Option<(i64, i64)>>) -> (r: Result<
    ComputedLayout,
    LayoutError,
>)
    requires
        scene_wf(*scene),
        intrinsics@.len() == scene.nodes@.len(),
        forall|a: int|
            0 <= a < intrinsics@.len() ==> ((#[trigger] intrinsics@[a]) matches Some(wh) ==> 0
                <= wh.0 <= LENGTH_BOUND && 0 <= wh.1 <= LENGTH_BOUND),
    ensures
        r matches Ok(cl) ==> {
            &&& layout_valid(*scene, intrinsics@, cl)
            &&& cl.canvas_size.width == scene.canvas.width
            &&& cl.canvas_size.height == scene.canvas.height
            &&& cl.element_frames@.len() == scene.nodes@.len()
            &&& forall|i: int|
                0 <= i < cl.element_frames@.len() ==> (#[trigger] cl.element_frames@[i]).1.width
                    >= 0 && cl.element_frames@[i].1.height >= 0
        },
        !scene_lowerable(*scene) ==> r is Err,
        r matches Err(e) ==> (e matches LayoutError::ElementNotFound(id) ==> spec_target_slot(
            *scene,
            Some(id),
        ) is None),
        r matches Err(LayoutError::Unsatisfiable(ConflictInfo::TwoValues { existing, requested }))
            ==> existing != requested && (exists|cons: Seq<LinCon>|
            #[trigger] lowered_ok(*scene, intrinsics@, cons) && pins_value(
                cons,
                requested as int,
            )),
{
    let sys: ConstraintSystem = match lower(scene, intrinsics) {
        Ok(sys) => sys,
        Err(e) => {
            match e {
                LowerError::ElementNotFound(id) => {
                    return Err(LayoutError::ElementNotFound(id));
                },
                LowerError::InvalidConstraint(id) => {
                    return Err(LayoutError::InvalidConstraint(id));
                },
            }
        },
    };
    let vals: Vec<i64> = match solve(&sys) {
        Ok(vals) => vals,
        Err(ci) => {
            proof {
                match ci {
                    ConflictInfo::TwoValues { existing, requested } => {
                        assert(lowered_ok(*scene, intrinsics@, sys.cons@) && pins_value(
                            sys.cons@,
                            requested as int,
                        ));
                    },
                    _ => {},
                }
            }
            return Err(LayoutError::Unsatisfiable(ci));
        },
    };
    let cl: ComputedLayout = extract_frames(scene, &vals);
    proof {
        assert(lowered_ok(*scene, intrinsics@, sys.cons@) && sat_required(sys.cons@, vals@)
            && frames_of_valuation(*scene, vals@, cl));
    }
    Ok(cl)
}

/// The sum and slack of a one-term linear form.
proof fn lemma_sum1(terms: Seq<LinTerm>, vals: Seq<i64>, v: int, a: int)
    requires
        terms.len() == 1,
        terms[0].var == v,
        terms[0].coeff == a,
        0 <= v < vals.len(),
    ensures
        terms_sum(terms, vals) == a * vals[v],
        terms_slack(terms) == abs_i(a),
{
    assert(terms.drop_last() =~= Seq::<LinTerm>::empty());
    assert(terms_sum(Seq::<LinTerm>::empty(), vals) == 0);
    assert(terms_slack(Seq::<LinTerm>::empty()) == 0);
    assert(terms.last() == terms[0]);
}

/// The sum and slack of a two-term linear form.
proof fn lemma_sum2(terms: Seq<LinTerm>, vals: Seq<i64>, v1: int, a1: int, v2: int, a2: int)
    requires
        terms.len() == 2,
        terms[0].var == v1,
        terms[0].coeff == a1,
        terms[1].var == v2,
        terms[1].coeff == a2,
        0 <= v1 < vals.len(),
        0 <= v2 < vals.len(),
    ensures
        terms_sum(terms, vals) == a1 * vals[v1] + a2 * vals[v2],
        terms_slack(terms) == abs_i(a1) + abs_i(a2),
{
    lemma_sum1(terms.drop_last(), vals, v1, a1);
    assert(terms.last() == terms[1]);
}

/// The sum and slack of a three-term linear form.
proof fn lemma_sum3(
    terms: Seq<LinTerm>,
    vals: Seq<i64>,
    v1: int,
    a1: int,
    v2: int,
    a2: int,
    v3: int,
    a3: int,
)
    requires
        terms.len() == 3,
        terms[0].var == v1,
        terms[0].coeff == a1,
        terms[1].var == v2,
        terms[1].coeff == a2,
        terms[2].var == v3,
        terms[2].coeff == a3,
        0 <= v1 < vals.len(),
        0 <= v2 < vals.len(),
        0 <= v3 < vals.len(),
    ensures
        terms_sum(terms, vals) == a1 * vals[v1] + a2 * vals[v2] + a3 * vals[v3],
        terms_slack(terms) == abs_i(a1) + abs_i(a2) + abs_i(a3),
{
    lemma_sum2(terms.drop_last(), vals, v1, a1, v2, a2);
    assert(terms.drop_last()[0] == terms[0]);
    assert(terms.drop_last()[1] == terms[1]);
    assert(terms.last() == terms[2]);
}

/// What a required one-term equality forces on a valuation that satisfies
/// the required constraints.
proof fn lemma_required_eq1(cons: Seq<LinCon>, vals: Seq<i64>, v: int, a: int, k: int)
    requires
        has_shape(cons, seq![(v, a)], k, LinOp::Eq, Priority::Required),
        sat_required(cons, vals),
        0 <= v < vals.len(),
    ensures
        2 * abs_i(a * vals[v] + k) <= abs_i(a),
{
    let j = choose|j: int|
        0 <= j < cons.len() && con_matches(
            #[trigger] cons[j],
            seq![(v, a)],
            k,
            LinOp::Eq,
            Priority::Required,
        );
    assert(con_sat(cons[j], vals));
    lemma_sum1(cons[j].terms@, vals, v, a);
}

/// What a required two-term equality forces.
proof fn lemma_required_eq2(
    cons: Seq<LinCon>,
    vals: Seq<i64>,
    v1: int,
    a1: int,
    v2: int,
    a2: int,
    k: int,
)
    requires
        has_shape(cons, seq![(v1, a1), (v2, a2)], k, LinOp::Eq, Priority::Required),
        sat_required(cons, vals),
        0 <= v1 < vals.len(),
        0 <= v2 < vals.len(),
    ensures
        2 * abs_i(a1 * vals[v1] + a2 * vals[v2] + k) <= abs_i(a1) + abs_i(a2),
{
    let j = choose|j: int|
        0 <= j < cons.len() && con_matches(
            #[trigger] cons[j],
            seq![(v1, a1), (v2, a2)],
            k,
            LinOp::Eq,
            Priority::Required,
        );
    assert(con_sat(cons[j], vals));
    lemma_sum2(cons[j].terms@, vals, v1, a1, v2, a2);
}

/// What a required three-term equality forces.
proof fn lemma_required_eq3(
    cons: Seq<LinCon>,
    vals: Seq<i64>,
    v1: int,
    a1: int,
    v2: int,
    a2: int,
    v3: int,
    a3: int,
    k: int,
)
    requires
        has_shape(cons, seq![(v1, a1), (v2, a2), (v3, a3)], k, LinOp::Eq, Priority::Required),
        sat_required(cons, vals),
        0 <= v1 < vals.len(),
        0 <= v2 < vals.len(),
        0 <= v3 < vals.len(),
    ensures
        2 * abs_i(a1 * vals[v1] + a2 * vals[v2] + a3 * vals[v3] + k) <= abs_i(a1) + abs_i(a2)
            + abs_i(a3),
{
    let j = choose|j: int|
        0 <= j < cons.len() && con_matches(
            #[trigger] cons[j],
            seq![(v1, a1), (v2, a2), (v3, a3)],
            k,
            LinOp::Eq,
            Priority::Required,
        );
    assert(con_sat(cons[j], vals));
    lemma_sum3(cons[j].terms@, vals, v1, a1, v2, a2, v3, a3);
}

/// A node with a `Required` fixed-width constraint gets exactly that width:
/// the solved width variable equals the required value, and — since required
/// values are nonnegative and extraction only clamps negatives — so does the
/// node's computed frame.
pub proof fn lemma_required_width_exact(
    s: Scene,
    intr: Seq<Option<(i64, i64)>>,
    cons: Seq<LinCon>,
    vals: Seq<i64>,
    i: int,
    j: int,
    v: i64,
)
    requires
        lowered_ok(s, intr, cons),
        sat_required(cons, vals),
        vals.len() == 8 * (s.nodes@.len() + 1),
        0 <= i < s.nodes@.len(),
        0 <= j < s.nodes@[i].constraints@.len(),
        s.nodes@[i].constraints@[j].priority == Priority::Required,
        s.nodes@[i].constraints@[j].constraint_type matches ConstraintType::Width {
            value: Some(vv),
            ..
        } && vv == v,
    ensures
        vals[vw(i)] == v,
{
    assert(has_shape(cons, seq![(vw(i), 1)], -(v as int), LinOp::Eq, Priority::Required));
    lemma_required_eq1(cons, vals, vw(i), 1, -(v as int));
}

/// Consecutive children of a vertical stack sit exactly one spacing apart:
/// the gap between a child's top and the previous child's bottom edge equals
/// the stack's spacing, within two milli-units (two thousandths of a pixel).
pub proof fn lemma_vstack_spacing(
    s: Scene,
    intr: Seq<Option<(i64, i64)>>,
    cons: Seq<LinCon>,
    vals: Seq<i64>,
    i: int,
    k: int,
)
    requires
        scene_wf(s),
        lowered_ok(s, intr, cons),
        sat_required(cons, vals),
        vals.len() == 8 * (s.nodes@.len() + 1),
        0 <= i < s.nodes@.len(),
        s.nodes@[i].kind matches NodeKind::VStack { .. },
        1 <= k < s.nodes@[i].children@.len(),
    ensures
        ({
            let ch = s.nodes@[i].children@;
            let spacing = (s.nodes@[i].kind)->VStack_properties.spacing as int;
            abs_i(vals[vy(ch[k] as int)] - vals[vbottom(ch[k - 1] as int)] - spacing) <= 1
        }),
{
    let ch = s.nodes@[i].children@;
    let spacing = (s.nodes@[i].kind)->VStack_properties.spacing as int;
    assert(crate::scene::node_wf(s.nodes@[i], s.nodes@.len()));
    assert(ch[k] < s.nodes@.len());
    assert(ch[k - 1] < s.nodes@.len());
    assert(crate::lower::stack_fact(s, cons, i));
    assert(has_shape(
        cons,
        seq![(vy(ch[k] as int), 1), (vbottom(ch[k - 1] as int), -1)],
        -spacing,
        LinOp::Eq,
        Priority::Required,
    ));
    lemma_required_eq2(cons, vals, vy(ch[k] as int), 1, vbottom(ch[k - 1] as int), -1, -spacing);
}

/// A node centered on the canvas at offset zero, together with the defining
/// identities of centers, splits the leftover width evenly:
/// `2·x(i) + w(i)` equals the canvas width within six milli-units.
pub proof fn lemma_centered_x(
    s: Scene,
    intr: Seq<Option<(i64, i64)>>,
    cons: Seq<LinCon>,
    vals: Seq<i64>,
    i: int,
    j: int,
)
    requires
        scene_wf(s),
        lowered_ok(s, intr, cons),
        sat_required(cons, vals),
        vals.len() == 8 * (s.nodes@.len() + 1),
        0 <= i < s.nodes@.len(),
        0 <= j < s.nodes@[i].constraints@.len(),
        s.nodes@[i].constraints@[j].priority == Priority::Required,
        s.nodes@[i].constraints@[j].constraint_type matches ConstraintType::CenterX {
            target: Option::None,
            offset: 0,
        },
    ensures
        abs_i(2 * vals[vx(i)] + vals[vw(i)] - s.canvas.width) <= 6,
{
    let L = s.nodes@.len() as int;
    // the user constraint: cx(i) = cx(canvas)
    assert(spec_target_slot(s, Option::None) == Some(L));
    assert(crate::lower::user_fact(s, cons, i, s.nodes@[i].constraints@[j]));
    assert(crate::lower::slot_facts(cons, i));
    assert(crate::lower::slot_facts(cons, L));
    assert(crate::lower::canvas_facts(s, cons));
    assert(has_shape(cons, seq![(vcx(i), 1), (vcx(L), -1)], 0, LinOp::Eq, Priority::Required));
    lemma_required_eq2(cons, vals, vcx(i), 1, vcx(L), -1, 0);
    // the identities of both slots
    lemma_required_eq3(cons, vals, vcx(i), 2, vx(i), -2, vw(i), -1, 0);
    lemma_required_eq3(cons, vals, vcx(L), 2, vx(L), -2, vw(L), -1, 0);
    // the canvas's fixed frame
    lemma_required_eq1(cons, vals, vx(L), 1, 0);
    lemma_required_eq1(cons, vals, vw(L), 1, -(s.canvas.width as int));
}

} // verus!
