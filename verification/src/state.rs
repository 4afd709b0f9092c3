//! The graphics state: transform, colours, path under construction, text
//! state, and the q/Q save stack.

use vstd::prelude::*;
use crate::ctm::{ctm_identity, Coord, CTM};
use crate::fx::FX_ONE;
use crate::scene::{color_black, BezPath, Color, PathEl};
use crate::text::font::{Font, FontV};

verus! {

/// The state of an open text object, created at BT and dropped at ET.
#[derive(Debug)]
pub struct TextState {
    /// Pen advance within a TJ array, in micro-units of 1/1000 em.
    pub position: i64,
    /// Font size in text units, micro-units; set by Tf.
    pub size: i64,
    /// The text matrix, stored already composed with the CTM that was in
    /// force when Tm ran.
    pub matrix: CTM,
    /// The selected font; none until Tf.
    pub font: Option<Font>,
}

/// The spec-level value of a [`TextState`].
#[verifier::ext_equal]
pub ghost struct TsV {
    pub position: i64,
    pub size: i64,
    pub matrix: CTM,
    pub font: Option<FontV>,
}

impl View for TextState {
    type V = TsV;

    open spec fn view(&self) -> TsV {
        TsV {
            position: self.position,
            size: self.size,
            matrix: self.matrix,
            font: match self.font {
                Some(f) => Some(f@),
                None => None,
            },
        }
    }
}

/// The state a BT operator opens with.
pub open spec fn ts_default_v() -> TsV {
    TsV { position: 0i64, size: 0i64, matrix: ctm_identity(), font: None }
}

impl Default for TextState {
    fn default() -> (r: TextState)
        ensures
            r@ == ts_default_v(),
    {
        TextState { position: 0, size: 0, matrix: CTM::default(), font: None }
    }
}

impl TextState {
    /// A value-equal copy.
    pub fn duplicate(&self) -> (r: TextState)
        ensures
            r@ == self@,
    {
        TextState {
            position: self.position,
            size: self.size,
            matrix: self.matrix,
            font: match &self.font {
                Some(f) => Some(f.duplicate()),
                None => None,
            },
        }
    }
}

/// Everything the drawing operators read and write: q saves a copy of it,
/// Q restores the last saved copy.
#[derive(Debug)]
pub struct GraphicsState {
    pub ctm: CTM,
    pub stroke_color: Color,
    pub non_stroke_color: Color,
    /// The path under construction, already in device pixels.
    pub path: BezPath,
    pub text_state: Option<TextState>,
    /// Line width in user units; scaled to device pixels at stroke time.
    pub line_width: i64,
    /// The last point added to the path, in device pixels.
    pub current_point: Coord,
}

/// The spec-level value of a [`GraphicsState`].
#[verifier::ext_equal]
pub ghost struct GsV {
    pub ctm: CTM,
    pub stroke_color: Color,
    pub non_stroke_color: Color,
    pub path: Seq<PathEl>,
    pub text_state: Option<TsV>,
    pub line_width: i64,
    pub current_point: Coord,
}

impl View for GraphicsState {
    type V = GsV;

    open spec fn view(&self) -> GsV {
        GsV {
            ctm: self.ctm,
            stroke_color: self.stroke_color,
            non_stroke_color: self.non_stroke_color,
            path: self.path@,
            text_state: match self.text_state {
                Some(ts) => Some(ts@),
                None => None,
            },
            line_width: self.line_width,
            current_point: self.current_point,
        }
    }
}

/// The graphics state a page starts with: identity transform, black
/// colours, empty path, no text object, line width one.
pub open spec fn gs_default_v() -> GsV {
    GsV {
        ctm: ctm_identity(),
        stroke_color: color_black(),
        non_stroke_color: color_black(),
        path: Seq::<PathEl>::empty(),
        text_state: None,
        line_width: FX_ONE,
        current_point: Coord { x: 0i64, y: 0i64 },
    }
}

impl Default for GraphicsState {
    fn default() -> (r: GraphicsState)
        ensures
            r@ == gs_default_v(),
    {
        GraphicsState {
            ctm: CTM::default(),
            stroke_color: Color { r: 0, g: 0, b: 0, a: FX_ONE },
            non_stroke_color: Color { r: 0, g: 0, b: 0, a: FX_ONE },
            path: BezPath::new(),
            text_state: None,
            line_width: FX_ONE,
            current_point: Coord { x: 0, y: 0 },
        }
    }
}

impl GraphicsState {
    /// A value-equal copy, as the q operator saves one.
    pub fn duplicate(&self) -> (r: GraphicsState)
        ensures
            r@ == self@,
    {
        GraphicsState {
            ctm: self.ctm,
            stroke_color: self.stroke_color,
            non_stroke_color: self.non_stroke_color,
            path: self.path.duplicate(),
            text_state: match &self.text_state {
                Some(ts) => Some(ts.duplicate()),
                None => None,
            },
            line_width: self.line_width,
            current_point: self.current_point,
        }
    }
}

/// The active graphics state and the stack of saved ones.
#[derive(Debug)]
pub struct State {
    pub gs: GraphicsState,
    pub stack: Vec<GraphicsState>,
}

/// The spec-level value of a [`State`].
#[verifier::ext_equal]
pub ghost struct StateV {
    pub gs: GsV,
    pub stack: Seq<GsV>,
}

impl View for State {
    type V = StateV;

    open spec fn view(&self) -> StateV {
        StateV { gs: self.gs@, stack: self.stack@.map_values(|g: GraphicsState| g@) }
    }
}

/// The whole interpreter state a page starts with: a default graphics state
/// over an empty save stack.
pub open spec fn state_default_v() -> StateV {
    StateV { gs: gs_default_v(), stack: Seq::<GsV>::empty() }
}

impl Default for State {
    fn default() -> (r: State)
        ensures
            r@ == state_default_v(),
    {
        let r = State { gs: GraphicsState::default(), stack: Vec::new() };
        proof {
            assert(r@.stack =~= Seq::<GsV>::empty());
        }
        r
    }
}

} // verus!
