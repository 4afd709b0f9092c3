//! The scene: an append-only buffer of device-space drawing commands.

use vstd::prelude::*;
use crate::ctm::{Coord, CTM};
use crate::fx::FX_ONE;

verus! {

/// An RGBA colour; each component is fixed-point in `[0, FX_ONE]`.
#[derive(Debug, Clone, Copy, PartialEq, Eq, Structural)]
pub struct Color {
    pub r: i64,
    pub g: i64,
    pub b: i64,
    pub a: i64,
}

/// Opaque black, the default for both colours of the graphics state.
pub open spec fn color_black() -> Color {
    Color { r: 0i64, g: 0i64, b: 0i64, a: FX_ONE }
}

/// How a fill decides which regions lie inside a path.
#[derive(Debug, Clone, Copy, PartialEq, Eq, Structural)]
pub enum FillRule {
    NonZero,
    EvenOdd,
}

/// One element of a Bézier path, in device pixels.
#[derive(Debug, Clone, Copy, PartialEq, Eq, Structural)]
pub enum PathEl {
    MoveTo(Coord),
    LineTo(Coord),
    QuadTo(Coord, Coord),
    CurveTo(Coord, Coord, Coord),
    ClosePath,
}

/// A Bézier path in device pixels.
#[derive(Debug)]
pub struct BezPath {
    pub els: Vec<PathEl>,
}

impl View for BezPath {
    type V = Seq<PathEl>;

    open spec fn view(&self) -> Seq<PathEl> {
        self.els@
    }
}

impl BezPath {
    pub fn new() -> (r: BezPath)
        ensures
            r@ == Seq::<PathEl>::empty(),
    {
        BezPath { els: Vec::new() }
    }

    pub fn move_to(&mut self, p: Coord)
        ensures
            final(self)@ == old(self)@.push(PathEl::MoveTo(p)),
    {
        self.els.push(PathEl::MoveTo(p));
    }

    pub fn line_to(&mut self, p: Coord)
        ensures
            final(self)@ == old(self)@.push(PathEl::LineTo(p)),
    {
        self.els.push(PathEl::LineTo(p));
    }

    pub fn quad_to(&mut self, p1: Coord, p2: Coord)
        ensures
            final(self)@ == old(self)@.push(PathEl::QuadTo(p1, p2)),
    {
        self.els.push(PathEl::QuadTo(p1, p2));
    }

    pub fn curve_to(&mut self, p1: Coord, p2: Coord, p3: Coord)
        ensures
            final(self)@ == old(self)@.push(PathEl::CurveTo(p1, p2, p3)),
    {
        self.els.push(PathEl::CurveTo(p1, p2, p3));
    }

    pub fn close_path(&mut self)
        ensures
            final(self)@ == old(self)@.push(PathEl::ClosePath),
    {
        self.els.push(PathEl::ClosePath);
    }

    /// An element-for-element copy of this path.
    pub fn duplicate(&self) -> (r: BezPath)
        ensures
            r@ == self@,
    {
        let mut els: Vec<PathEl> = Vec::new();
        let mut i: usize = 0;
        while i < self.els.len()
            invariant
                i <= self.els.len(),
                els@ == self.els@.subrange(0, i as int),
            decreases self.els.len() - i,
        {
            els.push(self.els[i]);
            i = i + 1;
        }
        proof {
            assert(els@ == self.els@);
        }
        BezPath { els }
    }
}

/// One drawing command, as the spec-level view of a scene records it.
#[verifier::ext_equal]
pub ghost enum SceneOpV {
    Fill { rule: FillRule, affine: CTM, color: Color, path: Seq<PathEl> },
    Stroke { width: i64, affine: CTM, color: Color, path: Seq<PathEl> },
}

/// One drawing command: a filled or a stroked path.
#[derive(Debug)]
pub enum SceneOp {
    Fill { rule: FillRule, affine: CTM, color: Color, path: BezPath },
    Stroke { width: i64, affine: CTM, color: Color, path: BezPath },
}

impl View for SceneOp {
    type V = SceneOpV;

    open spec fn view(&self) -> SceneOpV {
        match self {
            SceneOp::Fill { rule, affine, color, path } => SceneOpV::Fill {
                rule: *rule,
                affine: *affine,
                color: *color,
                path: path@,
            },
            SceneOp::Stroke { width, affine, color, path } => SceneOpV::Stroke {
                width: *width,
                affine: *affine,
                color: *color,
                path: path@,
            },
        }
    }
}

/// How many of the emitted commands are fills.
pub open spec fn count_fills(e: Seq<SceneOpV>) -> int
    decreases e.len(),
{
    if e.len() == 0 {
        0
    } else {
        (if e[0] is Fill {
            1int
        } else {
            0int
        }) + count_fills(e.drop_first())
    }
}

/// Fill counts add up over concatenation.
pub proof fn lemma_count_fills_add(a: Seq<SceneOpV>, b: Seq<SceneOpV>)
    ensures
        count_fills(a + b) == count_fills(a) + count_fills(b),
    decreases a.len(),
{
    if a.len() == 0 {
        assert(a + b =~= b);
    } else {
        assert((a + b)[0] == a[0]);
        assert((a + b).drop_first() =~= a.drop_first() + b);
        lemma_count_fills_add(a.drop_first(), b);
    }
}

/// The fill count of a single command.
pub proof fn lemma_count_fills_one(x: SceneOpV)
    ensures
        count_fills(seq![x]) == (if x is Fill {
            1int
        } else {
            0int
        }),
{
    assert(seq![x].len() == 1);
    assert(seq![x][0] == x);
    assert(seq![x].drop_first() =~= Seq::<SceneOpV>::empty());
    assert(count_fills(Seq::<SceneOpV>::empty()) == 0);
}

/// A fill count is never negative.
pub proof fn lemma_count_fills_nonneg(e: Seq<SceneOpV>)
    ensures
        count_fills(e) >= 0,
    decreases e.len(),
{
    if e.len() == 0 {
    } else {
        lemma_count_fills_nonneg(e.drop_first());
    }
}

/// The append-only buffer of drawing commands that a page render emits.
/// Commands are kept in emission order; a renderer composites them in this
/// order, painter's algorithm.
#[derive(Debug)]
pub struct Scene {
    pub ops: Vec<SceneOp>,
}

impl View for Scene {
    type V = Seq<SceneOpV>;

    open spec fn view(&self) -> Seq<SceneOpV> {
        self.ops@.map_values(|op: SceneOp| op@)
    }
}

impl Scene {
    pub fn new() -> (r: Scene)
        ensures
            r@ == Seq::<SceneOpV>::empty(),
    {
        let s = Scene { ops: Vec::new() };
        proof {
            assert(s@ =~= Seq::<SceneOpV>::empty());
        }
        s
    }

    /// Append a fill of `path` under the given rule and colour.
    pub fn fill(&mut self, rule: FillRule, affine: CTM, color: Color, path: &BezPath)
        ensures
            final(self)@ == old(self)@.push(
                SceneOpV::Fill { rule, affine, color, path: path@ },
            ),
    {
        self.ops.push(SceneOp::Fill { rule, affine, color, path: path.duplicate() });
        proof {
            assert(final(self)@ =~= old(self)@.push(
                SceneOpV::Fill { rule, affine, color, path: path@ },
            ));
        }
    }

    /// Append a stroke of `path` with the given device-space width.
    pub fn stroke(&mut self, width: i64, affine: CTM, color: Color, path: &BezPath)
        ensures
            final(self)@ == old(self)@.push(
                SceneOpV::Stroke { width, affine, color, path: path@ },
            ),
    {
        self.ops.push(SceneOp::Stroke { width, affine, color, path: path.duplicate() });
        proof {
            assert(final(self)@ =~= old(self)@.push(
                SceneOpV::Stroke { width, affine, color, path: path@ },
            ));
        }
    }
}

} // verus!
