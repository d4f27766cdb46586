//! The scene model: a flat, document-ordered arena of visual nodes with
//! layout constraints, plus the canvas description.
//!
//! Nodes reference each other by arena index (children) and by id string
//! (constraint targets).  The arena order is the document (pre-order) order:
//! the compositor paints nodes in index order, and a well-formed scene lists
//! every child after its parent.

use vstd::prelude::*;
use crate::color::Color;
use crate::geom::{Padding, Rect, Size, abs_i};

verus! {

/// A node's identifier; unique within a well-formed scene.
pub type ElementId = String;

/// The priority of a constraint.  `Required` constraints are hard; the
/// three soft levels yield to stronger ones under conflict.
#[derive(Clone, Copy, Debug, PartialEq, Eq, Structural)]
pub enum Priority {
    Required,
    High,
    Medium,
    Low,
}

impl Priority {
    /// The numeric strength conventionally associated with the priority.
    pub fn value(&self) -> (v: u32)
        ensures
            v == match *self {
                Priority::Required => 1000u32,
                Priority::High => 750u32,
                Priority::Medium => 500u32,
                Priority::Low => 250u32,
            },
    {
        match self {
            Priority::Required => 1000,
            Priority::High => 750,
            Priority::Medium => 500,
            Priority::Low => 250,
        }
    }
}

/// Horizontal alignment of text inside its frame.
#[derive(Clone, Copy, Debug, PartialEq, Eq, Structural)]
pub enum TextAlignment {
    Leading,
    Center,
    Trailing,
    Justified,
}

/// Weight of the text face.
#[derive(Clone, Copy, Debug, PartialEq, Eq, Structural)]
pub enum FontWeight {
    Light,
    Normal,
    Bold,
}

/// How text that exceeds its frame is broken or cut.
#[derive(Clone, Copy, Debug, PartialEq, Eq, Structural)]
pub enum LineBreakMode {
    WordWrap,
    CharWrap,
    Clip,
    TruncateHead,
    TruncateTail,
    TruncateMiddle,
}

/// How an image is fitted into its frame.
#[derive(Clone, Copy, Debug, PartialEq, Eq, Structural)]
pub enum ScaleMode {
    /// Largest uniform scale that keeps the whole image inside the frame.
    Fit,
    /// Smallest uniform scale that covers the whole frame.
    Fill,
    /// Independent horizontal and vertical scales.
    Stretch,
    /// No scaling; the image is centered.
    Center,
}

/// Cross-axis alignment of stack children.
#[derive(Clone, Copy, Debug, PartialEq, Eq, Structural)]
pub enum Alignment {
    Leading,
    Center,
    Trailing,
    Top,
    Bottom,
    FirstBaseline,
    LastBaseline,
}

/// Main-axis distribution of stack children.
#[derive(Clone, Copy, Debug, PartialEq, Eq, Structural)]
pub enum Distribution {
    Fill,
    FillEqually,
    FillProportionally,
    EqualSpacing,
    EqualCentering,
}

/// The relation a constraint imposes.  Lengths and offsets are milli-units;
/// `multiplier`, `percent` and `ratio` are per-mille.
#[derive(Clone, Debug)]
pub enum ConstraintType {
    /// `y = target.bottom + value`, or `canvas.y + value` without a target.
    Top { target: Option<ElementId>, value: i64 },
    /// `bottom = target.y - value`, or `canvas.bottom - value` without a target.
    Bottom { target: Option<ElementId>, value: i64 },
    /// `x = target.right + value`, or `canvas.x + value` without a target.
    Leading { target: Option<ElementId>, value: i64 },
    /// `right = target.x - value`, or `canvas.right - value` without a target.
    Trailing { target: Option<ElementId>, value: i64 },
    /// `cx = target.cx + offset`, against the canvas without a target.
    CenterX { target: Option<ElementId>, offset: i64 },
    /// `cy = target.cy + offset`, against the canvas without a target.
    CenterY { target: Option<ElementId>, offset: i64 },
    /// `w = value`, or `w = target.w * percent / 1000`, or
    /// `w = target.w * multiplier / 1000`.
    Width { value: Option<i64>, target: Option<ElementId>, multiplier: i64, percent: Option<i64> },
    /// As `Width`, for the height.
    Height { value: Option<i64>, target: Option<ElementId>, multiplier: i64, percent: Option<i64> },
    /// `w = h * ratio / 1000`.
    AspectRatio { ratio: i64 },
    /// `w >= value`.
    MinWidth { value: i64 },
    /// `w <= value`.
    MaxWidth { value: i64 },
    /// `h >= value`.
    MinHeight { value: i64 },
    /// `h <= value`.
    MaxHeight { value: i64 },
    /// `y = target.y`.
    AlignTop { target: ElementId },
    /// `bottom = target.bottom`.
    AlignBottom { target: ElementId },
    /// `x = target.x`.
    AlignLeading { target: ElementId },
    /// `right = target.right`.
    AlignTrailing { target: ElementId },
    /// Baseline alignment; rejected by the solver, which has no baseline metric.
    AlignBaseline { target: ElementId },
}

/// A constraint: a relation plus the strength it is enforced with.
#[derive(Clone, Debug)]
pub struct Constraint {
    pub constraint_type: ConstraintType,
    pub priority: Priority,
}

impl Constraint {
    /// A constraint at `Required` priority.
    pub fn new(constraint_type: ConstraintType) -> (c: Constraint)
        ensures
            c.constraint_type == constraint_type,
            c.priority == Priority::Required,
    {
        Constraint { constraint_type, priority: Priority::Required }
    }

    /// The same constraint at another priority.
    pub fn with_priority(self, priority: Priority) -> (c: Constraint)
        ensures
            c.constraint_type == self.constraint_type,
            c.priority == priority,
    {
        Constraint { constraint_type: self.constraint_type, priority }
    }
}

/// Visual properties of a text node.  `font_size` and `letter_spacing` are
/// milli-units; `line_height` is per-mille of the font size.
#[derive(Clone, Debug)]
pub struct TextProperties {
    pub font_family: String,
    pub font_size: i64,
    pub font_weight: FontWeight,
    pub color: Color,
    pub alignment: TextAlignment,
    pub line_height: i64,
    pub letter_spacing: i64,
    pub max_lines: Option<u32>,
    pub line_break_mode: LineBreakMode,
}

/// Visual properties of an image node.  `opacity`, `aspect_ratio` are
/// per-mille; `corner_radius` is milli-units.
#[derive(Clone, Debug)]
pub struct ImageProperties {
    pub scale_mode: ScaleMode,
    pub aspect_ratio: Option<i64>,
    pub corner_radius: i64,
    pub opacity: i64,
    pub tint_color: Option<Color>,
}

/// Visual properties of a container node.  `border_width` is milli-units;
/// `opacity` is per-mille.
#[derive(Clone, Debug)]
pub struct ContainerProperties {
    pub background: Color,
    pub corner_radius: i64,
    pub border_width: i64,
    pub border_color: Color,
    pub opacity: i64,
    pub padding: Padding,
}

/// Layout properties of a stack node.  `spacing` is milli-units.
#[derive(Clone, Debug)]
pub struct StackProperties {
    pub spacing: i64,
    pub alignment: Alignment,
    pub distribution: Distribution,
}

/// What a node is, with its kind-specific properties.
#[derive(Clone, Debug)]
pub enum NodeKind {
    Text { content: String, properties: TextProperties },
    Image { source: String, properties: ImageProperties },
    Container { properties: ContainerProperties },
    VStack { properties: StackProperties },
    HStack { properties: StackProperties },
    ZStack { properties: StackProperties },
    Spacer { min_length: i64, priority: Priority },
}

/// A node of the scene: identifier, kind, constraints, and the arena indices
/// of its children (empty for leaves).
#[derive(Clone, Debug)]
pub struct Node {
    pub id: ElementId,
    pub kind: NodeKind,
    pub constraints: Vec<Constraint>,
    pub children: Vec<usize>,
}

/// The output surface: size in milli-units, background color, padding.
#[derive(Clone, Debug)]
pub struct Canvas {
    pub width: i64,
    pub height: i64,
    pub background: Color,
    pub padding: Padding,
}

/// A whole scene: the canvas and the nodes in document (pre-order) order.
#[derive(Clone, Debug)]
pub struct Scene {
    pub canvas: Canvas,
    pub nodes: Vec<Node>,
}

/// Bound on user-supplied lengths: one billion pixels, in milli-units.
pub const LENGTH_BOUND: i64 = 1_000_000_000_000;

/// Bound on per-mille ratios (multipliers, percentages, aspect ratios):
/// a thousand-fold relation.
pub const RATIO_BOUND: i64 = 1_000_000;

/// Whether a constraint's numbers stay within the solver's working range.
pub open spec fn constraint_wf(c: Constraint) -> bool {
    match c.constraint_type {
        ConstraintType::Top { value, .. } => abs_i(value as int) <= LENGTH_BOUND,
        ConstraintType::Bottom { value, .. } => abs_i(value as int) <= LENGTH_BOUND,
        ConstraintType::Leading { value, .. } => abs_i(value as int) <= LENGTH_BOUND,
        ConstraintType::Trailing { value, .. } => abs_i(value as int) <= LENGTH_BOUND,
        ConstraintType::CenterX { offset, .. } => abs_i(offset as int) <= LENGTH_BOUND,
        ConstraintType::CenterY { offset, .. } => abs_i(offset as int) <= LENGTH_BOUND,
        ConstraintType::Width { value, multiplier, percent, .. } => {
            &&& (value matches Some(v) ==> 0 <= v <= LENGTH_BOUND)
            &&& abs_i(multiplier as int) <= RATIO_BOUND
            &&& (percent matches Some(p) ==> abs_i(p as int) <= RATIO_BOUND)
        },
        ConstraintType::Height { value, multiplier, percent, .. } => {
            &&& (value matches Some(v) ==> 0 <= v <= LENGTH_BOUND)
            &&& abs_i(multiplier as int) <= RATIO_BOUND
            &&& (percent matches Some(p) ==> abs_i(p as int) <= RATIO_BOUND)
        },
        ConstraintType::AspectRatio { ratio } => abs_i(ratio as int) <= RATIO_BOUND,
        ConstraintType::MinWidth { value } => 0 <= value <= LENGTH_BOUND,
        ConstraintType::MaxWidth { value } => 0 <= value <= LENGTH_BOUND,
        ConstraintType::MinHeight { value } => 0 <= value <= LENGTH_BOUND,
        ConstraintType::MaxHeight { value } => 0 <= value <= LENGTH_BOUND,
        ConstraintType::AlignTop { .. } => true,
        ConstraintType::AlignBottom { .. } => true,
        ConstraintType::AlignLeading { .. } => true,
        ConstraintType::AlignTrailing { .. } => true,
        ConstraintType::AlignBaseline { .. } => true,
    }
}

/// Whether a node's own numbers stay within the solver's working range.
pub open spec fn node_wf(n: Node, len: nat) -> bool {
    &&& forall|j: int| 0 <= j < n.constraints@.len() ==> constraint_wf(#[trigger] n.constraints@[j])
    &&& forall|j: int| 0 <= j < n.children@.len() ==> (#[trigger] n.children@[j]) < len
    &&& match n.kind {
        NodeKind::VStack { properties } => abs_i(properties.spacing as int) <= LENGTH_BOUND,
        NodeKind::HStack { properties } => abs_i(properties.spacing as int) <= LENGTH_BOUND,
        NodeKind::ZStack { .. } => true,
        NodeKind::Spacer { min_length, .. } => 0 <= min_length <= LENGTH_BOUND,
        _ => true,
    }
}

/// Whether a scene is well formed: canvas lengths in range, children indices
/// in range, and every constraint's numbers in range.
pub open spec fn scene_wf(s: Scene) -> bool {
    &&& 0 <= s.canvas.width <= LENGTH_BOUND
    &&& 0 <= s.canvas.height <= LENGTH_BOUND
    &&& s.nodes@.len() <= 100_000_000
    &&& forall|i: int| 0 <= i < s.nodes@.len() ==> node_wf(#[trigger] s.nodes@[i], s.nodes@.len())
}

/// The solver's output: one frame per node, in the scene's node order,
/// together with the canvas size.  All lengths are milli-units.
#[derive(Clone, Debug)]
pub struct ComputedLayout {
    pub element_frames: Vec<(ElementId, Rect)>,
    pub canvas_size: Size,
}

impl ComputedLayout {
    /// An empty layout for the given canvas size.
    pub fn new(canvas_size: Size) -> (cl: ComputedLayout)
        ensures
            cl.element_frames@.len() == 0,
            cl.canvas_size == canvas_size,
    {
        ComputedLayout { element_frames: Vec::new(), canvas_size }
    }

    /// Records a node's frame.
    pub fn set_frame(&mut self, element_id: ElementId, frame: Rect)
        ensures
            final(self).element_frames@ == old(self).element_frames@.push((element_id, frame)),
            final(self).canvas_size == old(self).canvas_size,
    {
        self.element_frames.push((element_id, frame));
    }

    /// Looks a node's frame up by id (the first entry with that id).
    pub fn get_frame(&self, element_id: &ElementId) -> (r: Option<&Rect>)
        ensures
            match r {
                Some(rect) => exists|i: int|
                    0 <= i < self.element_frames@.len() && (#[trigger] self.element_frames@[i]).0@
                        == element_id@ && self.element_frames@[i].1 == *rect,
                None => forall|i: int|
                    0 <= i < self.element_frames@.len() ==> (#[trigger] self.element_frames@[i]).0@
                        != element_id@,
            },
    {
        let n: usize = self.element_frames.len();
        let mut i: usize = 0;
        while i < n
            invariant
                0 <= i <= n,
                n == self.element_frames@.len(),
                forall|j: int|
                    0 <= j < i ==> (#[trigger] self.element_frames@[j]).0@ != element_id@,
            decreases n - i,
        {
            if self.element_frames[i].0 == *element_id {
                return Some(&self.element_frames[i].1);
            }
            i = i + 1;
        }
        None
    }
}

} // verus!
