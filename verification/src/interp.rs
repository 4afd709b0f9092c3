//! The content-stream interpreter: one state machine over the graphics
//! state, dispatching operators by name and arity, emitting device-space
//! drawing commands into the scene.
//!
//! [`step_v`] is the machine's transition function: it says exactly what
//! every operation does — how the state changes, what the scene receives,
//! and which operations abort the page. [`apply_op`] and [`run_ops`] are the
//! executable interpreter, proved to follow it operation for operation.

use vstd::prelude::*;
use crate::ctm::{concat, concat_v, ctm_identity, transform_from, transform_v, Coord, DeviceScale,
    CTM};
use crate::error::Error;
use crate::fx::{fx_add, fx_add_v, fx_mul, fx_mul_v, fx_sub, fx_sub_v};
use crate::object::{Obj, Op};
use crate::scene::{count_fills, lemma_count_fills_add, lemma_count_fills_nonneg, lemma_count_fills_one,
    BezPath, Color, FillRule, PathEl, Scene, SceneOpV};
use crate::state::{ts_default_v, GraphicsState, GsV, State, StateV, TextState, TsV};
use crate::text::font::{Font, FontV};
use crate::text::{draw_text, lemma_tj_elems_fills, tj_elems, tj_elems_outlined};
use crate::RenderSettings;

verus! {

/// The alpha overrides an ExtGState dictionary carries: `ca` replaces the
/// non-stroke alpha, `CA` the stroke alpha.
#[derive(Debug, Clone, Copy)]
pub struct AlphaOverrides {
    pub fill_alpha: Option<i64>,
    pub stroke_alpha: Option<i64>,
}

/// What the page driver prepares for the interpreter: the page's fonts, its
/// extended-graphics-state overrides, and the device scale.
#[derive(Debug)]
pub struct Env {
    pub fonts: Vec<(String, Font)>,
    pub ext_gstate: Vec<(String, AlphaOverrides)>,
    pub scale: DeviceScale,
}

/// The spec-level value of an [`Env`].
#[verifier::ext_equal]
pub ghost struct EnvV {
    pub fonts: Seq<(Seq<char>, FontV)>,
    pub ext_gstate: Seq<(Seq<char>, AlphaOverrides)>,
    pub scale: DeviceScale,
}

impl View for Env {
    type V = EnvV;

    open spec fn view(&self) -> EnvV {
        EnvV {
            fonts: self.fonts@.map_values(|p: (String, Font)| (p.0@, p.1@)),
            ext_gstate: self.ext_gstate@.map_values(
                |p: (String, AlphaOverrides)| (p.0@, p.1),
            ),
            scale: self.scale,
        }
    }
}

/// First font of `s` stored under `name`.
pub open spec fn assoc_font(s: Seq<(Seq<char>, FontV)>, name: Seq<char>) -> Option<FontV>
    decreases s.len(),
{
    if s.len() == 0 {
        None
    } else if s[0].0 == name {
        Some(s[0].1)
    } else {
        assoc_font(s.drop_first(), name)
    }
}

/// First alpha override of `s` stored under `name`.
pub open spec fn assoc_alpha(s: Seq<(Seq<char>, AlphaOverrides)>, name: Seq<char>) -> Option<
    AlphaOverrides,
>
    decreases s.len(),
{
    if s.len() == 0 {
        None
    } else if s[0].0 == name {
        Some(s[0].1)
    } else {
        assoc_alpha(s.drop_first(), name)
    }
}

/// Look a font up in the environment by resource name.
fn find_font<'a>(fonts: &'a Vec<(String, Font)>, name: &String) -> (r: Option<&'a Font>)
    ensures
        match r {
            Some(f) => assoc_font(
                fonts@.map_values(|p: (String, Font)| (p.0@, p.1@)),
                name@,
            ) == Some(f@),
            None => assoc_font(
                fonts@.map_values(|p: (String, Font)| (p.0@, p.1@)),
                name@,
            ) is None,
        },
{
    let ghost sv = fonts@.map_values(|p: (String, Font)| (p.0@, p.1@));
    let mut i: usize = 0;
    proof {
        assert(sv.skip(0) =~= sv);
    }
    while i < fonts.len()
        invariant
            i <= fonts.len(),
            sv == fonts@.map_values(|p: (String, Font)| (p.0@, p.1@)),
            assoc_font(sv, name@) == assoc_font(sv.skip(i as int), name@),
        decreases fonts.len() - i,
    {
        proof {
            assert(sv.skip(i as int).drop_first() =~= sv.skip(i as int + 1));
            assert(sv[i as int] == (fonts@[i as int].0@, fonts@[i as int].1@));
        }
        if fonts[i].0 == *name {
            return Some(&fonts[i].1);
        }
        i = i + 1;
    }
    None
}

/// Look an alpha override up in the environment by resource name.
fn find_alpha(ext: &Vec<(String, AlphaOverrides)>, name: &String) -> (r: Option<AlphaOverrides>)
    ensures
        ({
            let sv = ext@.map_values(|p: (String, AlphaOverrides)| (p.0@, p.1));
            match r {
                Some(a) => assoc_alpha(sv, name@) == Some(a),
                None => assoc_alpha(sv, name@) is None,
            }
        }),
{
    let ghost sv = ext@.map_values(|p: (String, AlphaOverrides)| (p.0@, p.1));
    let mut i: usize = 0;
    proof {
        assert(sv.skip(0) =~= sv);
    }
    while i < ext.len()
        invariant
            i <= ext.len(),
            sv == ext@.map_values(|p: (String, AlphaOverrides)| (p.0@, p.1)),
            assoc_alpha(sv, name@) == assoc_alpha(sv.skip(i as int), name@),
        decreases ext.len() - i,
    {
        proof {
            assert(sv.skip(i as int).drop_first() =~= sv.skip(i as int + 1));
            assert(sv[i as int] == (ext@[i as int].0@, ext@[i as int].1));
        }
        if ext[i].0 == *name {
            return Some(ext[i].1);
        }
        i = i + 1;
    }
    None
}

/// What one operation leaves behind: the next state, what it appended to
/// the scene, and the error if it aborted the page. An aborting operation
/// changes nothing and emits nothing.
#[verifier::ext_equal]
pub ghost struct StepR {
    pub state: StateV,
    pub emit: Seq<SceneOpV>,
    pub err: Option<Error>,
}

/// The operation left the state as it stands.
pub open spec fn step_unchanged(s: StateV) -> StepR {
    StepR { state: s, emit: Seq::<SceneOpV>::empty(), err: None }
}

/// The operation moved to `s2` without emitting.
pub open spec fn step_to(s2: StateV) -> StepR {
    StepR { state: s2, emit: Seq::<SceneOpV>::empty(), err: None }
}

/// The operation aborted the page.
pub open spec fn step_fail(s: StateV, e: Error) -> StepR {
    StepR { state: s, emit: Seq::<SceneOpV>::empty(), err: Some(e) }
}

/// Six numeric operands read as a matrix.
pub open spec fn ctm_of_args(args: Seq<Obj>) -> Option<CTM>
    recommends
        args.len() == 6,
{
    match (args[0].spec_fx(), args[1].spec_fx(), args[2].spec_fx(), args[3].spec_fx(),
        args[4].spec_fx(), args[5].spec_fx()) {
        (Some(a), Some(b), Some(c), Some(d), Some(e), Some(f)) => Some(
            CTM {
                a: a as i64,
                b: b as i64,
                c: c as i64,
                d: d as i64,
                e: e as i64,
                f: f as i64,
            },
        ),
        _ => None,
    }
}

/// BT: open a text object with the default text state.
pub open spec fn op_bt(s: StateV) -> StepR {
    step_to(StateV { gs: GsV { text_state: Some(ts_default_v()), ..s.gs }, ..s })
}

/// ET: close the text object.
pub open spec fn op_et(s: StateV) -> StepR {
    step_to(StateV { gs: GsV { text_state: None, ..s.gs }, ..s })
}

/// Tm: inside a text object, replace the text state wholesale — pen
/// position, size and font fall back to their defaults — and set the text
/// matrix to the current transform composed with the operands. Outside a
/// text object the operation is passed over.
pub open spec fn op_tm(s: StateV, args: Seq<Obj>) -> StepR {
    match s.gs.text_state {
        None => step_unchanged(s),
        Some(_) => match ctm_of_args(args) {
            None => step_fail(s, Error::BadOperand),
            Some(m) => step_to(
                StateV {
                    gs: GsV {
                        text_state: Some(
                            TsV {
                                position: 0i64,
                                size: 0i64,
                                matrix: concat_v(s.gs.ctm, m),
                                font: None,
                            },
                        ),
                        ..s.gs
                    },
                    ..s
                },
            ),
        },
    }
}

/// Tf: select a font by resource name and set the size. An unknown name is
/// passed over, as is a Tf outside a text object.
pub open spec fn op_tf(env: EnvV, s: StateV, name: Seq<char>, size_arg: Obj) -> StepR {
    match assoc_font(env.fonts, name) {
        None => step_unchanged(s),
        Some(f) => match s.gs.text_state {
            None => step_unchanged(s),
            Some(ts) => match size_arg.spec_fx() {
                None => step_fail(s, Error::BadOperand),
                Some(sz) => step_to(
                    StateV {
                        gs: GsV {
                            text_state: Some(
                                TsV { size: sz as i64, font: Some(f), ..ts },
                            ),
                            ..s.gs
                        },
                        ..s
                    },
                ),
            },
        },
    }
}

/// TJ: show text. The operand must be an array; the text object must be
/// open with a font selected, else the page fails with MissingTextState.
pub open spec fn op_tj(env: EnvV, s: StateV, arg: Obj) -> StepR {
    match arg {
        Obj::Array(elems) => match s.gs.text_state {
            None => step_fail(s, Error::MissingTextState),
            Some(ts) => match ts.font {
                None => step_fail(s, Error::MissingTextState),
                Some(f) => {
                    let (ts2, emit) = tj_elems(
                        f,
                        ts,
                        s.gs.non_stroke_color,
                        env.scale,
                        elems@,
                    );
                    StepR {
                        state: StateV { gs: GsV { text_state: Some(ts2), ..s.gs }, ..s },
                        emit,
                        err: None,
                    }
                },
            },
        },
        _ => step_fail(s, Error::BadOperand),
    }
}

/// cm: compose the current transform with the operands.
pub open spec fn op_cm(s: StateV, args: Seq<Obj>) -> StepR {
    match ctm_of_args(args) {
        None => step_fail(s, Error::BadOperand),
        Some(m) => step_to(StateV { gs: GsV { ctm: concat_v(s.gs.ctm, m), ..s.gs }, ..s }),
    }
}

/// q: push a copy of the graphics state.
pub open spec fn op_save(s: StateV) -> StepR {
    step_to(StateV { stack: s.stack.push(s.gs), ..s })
}

/// Q: pop the last saved graphics state; with nothing saved the page fails
/// with UnbalancedStack.
pub open spec fn op_restore(s: StateV) -> StepR {
    if s.stack.len() == 0 {
        step_fail(s, Error::UnbalancedStack)
    } else {
        step_to(StateV { gs: s.stack.last(), stack: s.stack.drop_last() })
    }
}

/// scn / SCN: set the colour from three numeric operands, keeping the
/// current alpha of the colour being replaced.
pub open spec fn color_of_args(args: Seq<Obj>, alpha: i64) -> Option<Color>
    recommends
        args.len() == 3,
{
    match (args[0].spec_fx(), args[1].spec_fx(), args[2].spec_fx()) {
        (Some(r), Some(g), Some(b)) => Some(
            Color { r: r as i64, g: g as i64, b: b as i64, a: alpha },
        ),
        _ => None,
    }
}

/// scn: replace the non-stroke colour.
pub open spec fn op_scn(s: StateV, args: Seq<Obj>) -> StepR {
    match color_of_args(args, s.gs.non_stroke_color.a) {
        None => step_fail(s, Error::BadOperand),
        Some(c) => step_to(StateV { gs: GsV { non_stroke_color: c, ..s.gs }, ..s }),
    }
}

/// SCN: replace the stroke colour.
pub open spec fn op_scn_stroke(s: StateV, args: Seq<Obj>) -> StepR {
    match color_of_args(args, s.gs.stroke_color.a) {
        None => step_fail(s, Error::BadOperand),
        Some(c) => step_to(StateV { gs: GsV { stroke_color: c, ..s.gs }, ..s }),
    }
}

/// Two numeric operands read as a user-space point.
pub open spec fn point_of_args(a0: Obj, a1: Obj) -> Option<Coord> {
    match (a0.spec_fx(), a1.spec_fx()) {
        (Some(x), Some(y)) => Some(Coord { x: x as i64, y: y as i64 }),
        _ => None,
    }
}

/// m: begin a subpath at the transformed point.
pub open spec fn op_move(s: StateV, args: Seq<Obj>, scale: DeviceScale) -> StepR {
    match point_of_args(args[0], args[1]) {
        None => step_fail(s, Error::BadOperand),
        Some(p) => {
            let d = transform_v(p, s.gs.ctm, scale);
            step_to(
                StateV {
                    gs: GsV {
                        path: s.gs.path.push(PathEl::MoveTo(d)),
                        current_point: d,
                        ..s.gs
                    },
                    ..s
                },
            )
        },
    }
}

/// l: a line to the transformed point.
pub open spec fn op_line(s: StateV, args: Seq<Obj>, scale: DeviceScale) -> StepR {
    match point_of_args(args[0], args[1]) {
        None => step_fail(s, Error::BadOperand),
        Some(p) => {
            let d = transform_v(p, s.gs.ctm, scale);
            step_to(
                StateV {
                    gs: GsV {
                        path: s.gs.path.push(PathEl::LineTo(d)),
                        current_point: d,
                        ..s.gs
                    },
                    ..s
                },
            )
        },
    }
}

/// v: a cubic whose first control point is the current device-space point.
pub open spec fn op_curve_v(s: StateV, args: Seq<Obj>, scale: DeviceScale) -> StepR {
    match (point_of_args(args[0], args[1]), point_of_args(args[2], args[3])) {
        (Some(p2), Some(p3)) => {
            let d1 = s.gs.current_point;
            let d2 = transform_v(p2, s.gs.ctm, scale);
            let d3 = transform_v(p3, s.gs.ctm, scale);
            step_to(
                StateV {
                    gs: GsV {
                        path: s.gs.path.push(PathEl::CurveTo(d1, d2, d3)),
                        current_point: d3,
                        ..s.gs
                    },
                    ..s
                },
            )
        },
        _ => step_fail(s, Error::BadOperand),
    }
}

/// c: a cubic with all three control points transformed.
pub open spec fn op_curve(s: StateV, args: Seq<Obj>, scale: DeviceScale) -> StepR {
    match (point_of_args(args[0], args[1]), point_of_args(args[2], args[3]), point_of_args(
        args[4],
        args[5],
    )) {
        (Some(p1), Some(p2), Some(p3)) => {
            let d1 = transform_v(p1, s.gs.ctm, scale);
            let d2 = transform_v(p2, s.gs.ctm, scale);
            let d3 = transform_v(p3, s.gs.ctm, scale);
            step_to(
                StateV {
                    gs: GsV {
                        path: s.gs.path.push(PathEl::CurveTo(d1, d2, d3)),
                        current_point: d3,
                        ..s.gs
                    },
                    ..s
                },
            )
        },
        _ => step_fail(s, Error::BadOperand),
    }
}

/// re: transform two opposite corners and append the axis-aligned rectangle
/// spanned by their difference. A rotating transform is approximated by
/// that axis-aligned rectangle. The current point is not moved.
pub open spec fn op_rect(s: StateV, args: Seq<Obj>, scale: DeviceScale) -> StepR {
    match (args[0].spec_fx(), args[1].spec_fx(), args[2].spec_fx(), args[3].spec_fx()) {
        (Some(x), Some(y), Some(w), Some(h)) => {
            let p0 = Coord { x: x as i64, y: y as i64 };
            let p1 = Coord {
                x: fx_add_v(x, w) as i64,
                y: fx_add_v(y, h) as i64,
            };
            let d0 = transform_v(p0, s.gs.ctm, scale);
            let d1 = transform_v(p1, s.gs.ctm, scale);
            let wx = fx_sub_v(d1.x as int, d0.x as int) as i64;
            let wy = fx_sub_v(d1.y as int, d0.y as int) as i64;
            let x1 = fx_add_v(d0.x as int, wx as int) as i64;
            let y1 = fx_add_v(d0.y as int, wy as int) as i64;
            let els = seq![
                PathEl::MoveTo(d0),
                PathEl::LineTo(Coord { x: x1, y: d0.y }),
                PathEl::LineTo(Coord { x: x1, y: y1 }),
                PathEl::LineTo(Coord { x: d0.x, y: y1 }),
                PathEl::ClosePath,
            ];
            step_to(StateV { gs: GsV { path: s.gs.path + els, ..s.gs }, ..s })
        },
        _ => step_fail(s, Error::BadOperand),
    }
}

/// h: close the subpath.
pub open spec fn op_close(s: StateV) -> StepR {
    step_to(StateV { gs: GsV { path: s.gs.path.push(PathEl::ClosePath), ..s.gs }, ..s })
}

/// f and f*: fill the current path with the non-stroke colour and reset it.
pub open spec fn op_fill(s: StateV, rule: FillRule) -> StepR {
    StepR {
        state: StateV { gs: GsV { path: Seq::<PathEl>::empty(), ..s.gs }, ..s },
        emit: seq![
            SceneOpV::Fill {
                rule,
                affine: ctm_identity(),
                color: s.gs.non_stroke_color,
                path: s.gs.path,
            },
        ],
        err: None,
    }
}

/// w: set the line width.
pub open spec fn op_width(s: StateV, arg: Obj) -> StepR {
    match arg.spec_fx() {
        None => step_fail(s, Error::BadOperand),
        Some(lw) => step_to(StateV { gs: GsV { line_width: lw as i64, ..s.gs }, ..s }),
    }
}

/// S: stroke the current path, the line width scaled to device pixels, and
/// reset it.
pub open spec fn op_stroke(s: StateV, scale: DeviceScale) -> StepR {
    StepR {
        state: StateV { gs: GsV { path: Seq::<PathEl>::empty(), ..s.gs }, ..s },
        emit: seq![
            SceneOpV::Stroke {
                width: fx_mul_v(s.gs.line_width as int, scale.scale as int) as i64,
                affine: ctm_identity(),
                color: s.gs.stroke_color,
                path: s.gs.path,
            },
        ],
        err: None,
    }
}

/// B: fill non-zero, then stroke, then reset the path.
pub open spec fn op_fill_stroke(s: StateV, scale: DeviceScale) -> StepR {
    StepR {
        state: StateV { gs: GsV { path: Seq::<PathEl>::empty(), ..s.gs }, ..s },
        emit: seq![
            SceneOpV::Fill {
                rule: FillRule::NonZero,
                affine: ctm_identity(),
                color: s.gs.non_stroke_color,
                path: s.gs.path,
            },
            SceneOpV::Stroke {
                width: fx_mul_v(s.gs.line_width as int, scale.scale as int) as i64,
                affine: ctm_identity(),
                color: s.gs.stroke_color,
                path: s.gs.path,
            },
        ],
        err: None,
    }
}

/// gs: apply an extended-graphics-state dictionary's alpha overrides; an
/// unknown name is passed over, unknown keys are ignored.
pub open spec fn op_ext_gstate(env: EnvV, s: StateV, name: Seq<char>) -> StepR {
    match assoc_alpha(env.ext_gstate, name) {
        None => step_unchanged(s),
        Some(al) => {
            let ns = match al.fill_alpha {
                Some(ca) => Color { a: ca, ..s.gs.non_stroke_color },
                None => s.gs.non_stroke_color,
            };
            let ss = match al.stroke_alpha {
                Some(ca) => Color { a: ca, ..s.gs.stroke_color },
                None => s.gs.stroke_color,
            };
            step_to(StateV { gs: GsV { non_stroke_color: ns, stroke_color: ss, ..s.gs }, ..s })
        },
    }
}

/// The transition function: what the operation `name args` does to state
/// and scene. An operator outside the recognised set, or with the wrong
/// operand count or shape of its name operand, is passed over silently.
pub open spec fn step_v(env: EnvV, s: StateV, name: Seq<char>, args: Seq<Obj>) -> StepR {
    if name == "BT"@ && args.len() == 0 {
        op_bt(s)
    } else if name == "Tm"@ && args.len() == 6 {
        op_tm(s, args)
    } else if name == "Tf"@ && args.len() == 2 && args[0] matches Obj::Name(_) {
        op_tf(env, s, args[0]->Name_0@, args[1])
    } else if name == "TJ"@ && args.len() == 1 {
        op_tj(env, s, args[0])
    } else if name == "ET"@ && args.len() == 0 {
        op_et(s)
    } else if name == "cm"@ && args.len() == 6 {
        op_cm(s, args)
    } else if name == "q"@ && args.len() == 0 {
        op_save(s)
    } else if name == "Q"@ && args.len() == 0 {
        op_restore(s)
    } else if name == "scn"@ && args.len() == 3 {
        op_scn(s, args)
    } else if name == "SCN"@ && args.len() == 3 {
        op_scn_stroke(s, args)
    } else if name == "m"@ && args.len() == 2 {
        op_move(s, args, env.scale)
    } else if name == "l"@ && args.len() == 2 {
        op_line(s, args, env.scale)
    } else if name == "v"@ && args.len() == 4 {
        op_curve_v(s, args, env.scale)
    } else if name == "c"@ && args.len() == 6 {
        op_curve(s, args, env.scale)
    } else if name == "re"@ && args.len() == 4 {
        op_rect(s, args, env.scale)
    } else if name == "h"@ && args.len() == 0 {
        op_close(s)
    } else if name == "f"@ && args.len() == 0 {
        op_fill(s, FillRule::NonZero)
    } else if name == "f*"@ && args.len() == 0 {
        op_fill(s, FillRule::EvenOdd)
    } else if name == "w"@ && args.len() == 1 {
        op_width(s, args[0])
    } else if name == "S"@ && args.len() == 0 {
        op_stroke(s, env.scale)
    } else if name == "B"@ && args.len() == 0 {
        op_fill_stroke(s, env.scale)
    } else if name == "gs"@ && args.len() == 1 && args[0] matches Obj::Name(_) {
        op_ext_gstate(env, s, args[0]->Name_0@)
    } else {
        step_unchanged(s)
    }
}

/// Does the operator read `lit`?
fn op_is(op: &String, lit: &str) -> (r: bool)
    ensures
        r == (op@ == lit@),
{
    *op == lit.to_owned()
}

/// Is this operand a name?
fn is_name(o: &Obj) -> (r: bool)
    ensures
        r == (o matches Obj::Name(_)),
{
    match o {
        Obj::Name(_) => true,
        _ => false,
    }
}

/// Execute one operation against the state and the scene: the executable
/// form of [`step_v`]. On an error the state and the scene are unchanged.
#[verifier::rlimit(60)]
pub fn apply_op(
    env: &Env,
    state: &mut State,
    scene: &mut Scene,
    op: &Op,
    settings: &RenderSettings,
) -> (r: Result<(), Error>)
    ensures
        ({
            let st = step_v(env@, old(state)@, op.operator@, op.operands@);
            match r {
                Ok(()) => st.err is None && final(state)@ == st.state && final(scene)@ == old(
                    scene,
                )@ + st.emit,
                Err(e) => st.err == Some(e) && final(state)@ == old(state)@ && final(scene)@
                    == old(scene)@,
            }
        }),
{
    proof {
        reveal_strlit("BT");
        reveal_strlit("Tm");
        reveal_strlit("Tf");
        reveal_strlit("TJ");
        reveal_strlit("ET");
        reveal_strlit("cm");
        reveal_strlit("q");
        reveal_strlit("Q");
        reveal_strlit("scn");
        reveal_strlit("SCN");
        reveal_strlit("m");
        reveal_strlit("l");
        reveal_strlit("v");
        reveal_strlit("c");
        reveal_strlit("re");
        reveal_strlit("h");
        reveal_strlit("f");
        reveal_strlit("f*");
        reveal_strlit("w");
        reveal_strlit("S");
        reveal_strlit("B");
        reveal_strlit("gs");
    }
    let o = &op.operator;
    let n_args = op.operands.len();
    if op_is(o, "BT") && n_args == 0 {
        state.gs.text_state = Some(TextState::default());
        Ok(())
    } else if op_is(o, "Tm") && n_args == 6 {
        match &state.gs.text_state {
            Some(_) => {
                let m = CTM {
                    a: op.operands[0].as_fx()?,
                    b: op.operands[1].as_fx()?,
                    c: op.operands[2].as_fx()?,
                    d: op.operands[3].as_fx()?,
                    e: op.operands[4].as_fx()?,
                    f: op.operands[5].as_fx()?,
                };
                let matrix = concat(&state.gs.ctm, &m);
                state.gs.text_state = Some(
                    TextState { position: 0, size: 0, matrix, font: None },
                );
            },
            None => {},
        }
        Ok(())
    } else if op_is(o, "Tf") && n_args == 2 && is_name(&op.operands[0]) {
        let sized: Option<(i64, Font)> = match &op.operands[0] {
            Obj::Name(name) => match find_font(&env.fonts, name) {
                Some(f) => match &state.gs.text_state {
                    Some(_) => {
                        let sz = op.operands[1].as_fx()?;
                        Some((sz, f.duplicate()))
                    },
                    None => None,
                },
                None => None,
            },
            _ => None,
        };
        match sized {
            Some((sz, fd)) => {
                match &mut state.gs.text_state {
                    Some(ts) => {
                        ts.size = sz;
                        ts.font = Some(fd);
                    },
                    None => {},
                }
            },
            None => {},
        }
        Ok(())
    } else if op_is(o, "TJ") && n_args == 1 {
        let arr = op.operands[0].as_array()?;
        draw_text(&env.scale, scene, &mut state.gs, arr, settings)?;
        Ok(())
    } else if op_is(o, "ET") && n_args == 0 {
        state.gs.text_state = None;
        Ok(())
    } else if op_is(o, "cm") && n_args == 6 {
        let m = CTM {
            a: op.operands[0].as_fx()?,
            b: op.operands[1].as_fx()?,
            c: op.operands[2].as_fx()?,
            d: op.operands[3].as_fx()?,
            e: op.operands[4].as_fx()?,
            f: op.operands[5].as_fx()?,
        };
        state.gs.ctm = concat(&state.gs.ctm, &m);
        Ok(())
    } else if op_is(o, "q") && n_args == 0 {
        let saved = state.gs.duplicate();
        state.stack.push(saved);
        proof {
            assert(final(state)@.stack =~= old(state)@.stack.push(old(state)@.gs));
        }
        Ok(())
    } else if op_is(o, "Q") && n_args == 0 {
        match state.stack.pop() {
            Some(g) => {
                state.gs = g;
                proof {
                    assert(final(state)@.stack =~= old(state)@.stack.drop_last());
                    assert(final(state)@.gs == old(state)@.stack.last());
                }
                Ok(())
            },
            None => Err(Error::UnbalancedStack),
        }
    } else if op_is(o, "scn") && n_args == 3 {
        let cr = op.operands[0].as_fx()?;
        let cg = op.operands[1].as_fx()?;
        let cb = op.operands[2].as_fx()?;
        state.gs.non_stroke_color = Color {
            r: cr,
            g: cg,
            b: cb,
            a: state.gs.non_stroke_color.a,
        };
        Ok(())
    } else if op_is(o, "SCN") && n_args == 3 {
        let cr = op.operands[0].as_fx()?;
        let cg = op.operands[1].as_fx()?;
        let cb = op.operands[2].as_fx()?;
        state.gs.stroke_color = Color { r: cr, g: cg, b: cb, a: state.gs.stroke_color.a };
        Ok(())
    } else if op_is(o, "m") && n_args == 2 {
        let x = op.operands[0].as_fx()?;
        let y = op.operands[1].as_fx()?;
        let d = transform_from(&Coord { x, y }, &state.gs.ctm, &env.scale);
        state.gs.path.move_to(d);
        state.gs.current_point = d;
        Ok(())
    } else if op_is(o, "l") && n_args == 2 {
        let x = op.operands[0].as_fx()?;
        let y = op.operands[1].as_fx()?;
        let d = transform_from(&Coord { x, y }, &state.gs.ctm, &env.scale);
        state.gs.path.line_to(d);
        state.gs.current_point = d;
        Ok(())
    } else if op_is(o, "v") && n_args == 4 {
        let x2 = op.operands[0].as_fx()?;
        let y2 = op.operands[1].as_fx()?;
        let x3 = op.operands[2].as_fx()?;
        let y3 = op.operands[3].as_fx()?;
        let d1 = state.gs.current_point;
        let d2 = transform_from(&Coord { x: x2, y: y2 }, &state.gs.ctm, &env.scale);
        let d3 = transform_from(&Coord { x: x3, y: y3 }, &state.gs.ctm, &env.scale);
        state.gs.path.curve_to(d1, d2, d3);
        state.gs.current_point = d3;
        Ok(())
    } else if op_is(o, "c") && n_args == 6 {
        let x1 = op.operands[0].as_fx()?;
        let y1 = op.operands[1].as_fx()?;
        let x2 = op.operands[2].as_fx()?;
        let y2 = op.operands[3].as_fx()?;
        let x3 = op.operands[4].as_fx()?;
        let y3 = op.operands[5].as_fx()?;
        let d1 = transform_from(&Coord { x: x1, y: y1 }, &state.gs.ctm, &env.scale);
        let d2 = transform_from(&Coord { x: x2, y: y2 }, &state.gs.ctm, &env.scale);
        let d3 = transform_from(&Coord { x: x3, y: y3 }, &state.gs.ctm, &env.scale);
        state.gs.path.curve_to(d1, d2, d3);
        state.gs.current_point = d3;
        Ok(())
    } else if op_is(o, "re") && n_args == 4 {
        let x = op.operands[0].as_fx()?;
        let y = op.operands[1].as_fx()?;
        let w = op.operands[2].as_fx()?;
        let h = op.operands[3].as_fx()?;
        let d0 = transform_from(&Coord { x, y }, &state.gs.ctm, &env.scale);
        let d1 = transform_from(
            &Coord { x: fx_add(x, w), y: fx_add(y, h) },
            &state.gs.ctm,
            &env.scale,
        );
        let wx = fx_sub(d1.x, d0.x);
        let wy = fx_sub(d1.y, d0.y);
        let x1 = fx_add(d0.x, wx);
        let y1 = fx_add(d0.y, wy);
        state.gs.path.move_to(d0);
        state.gs.path.line_to(Coord { x: x1, y: d0.y });
        state.gs.path.line_to(Coord { x: x1, y: y1 });
        state.gs.path.line_to(Coord { x: d0.x, y: y1 });
        state.gs.path.close_path();
        proof {
            let st = step_v(env@, old(state)@, op.operator@, op.operands@);
            assert(final(state)@.gs.path =~= st.state.gs.path);
        }
        Ok(())
    } else if op_is(o, "h") && n_args == 0 {
        state.gs.path.close_path();
        Ok(())
    } else if op_is(o, "f") && n_args == 0 {
        scene.fill(
            FillRule::NonZero,
            CTM::default(),
            state.gs.non_stroke_color,
            &state.gs.path,
        );
        state.gs.path = BezPath::new();
        proof {
            let st = step_v(env@, old(state)@, op.operator@, op.operands@);
            assert(final(scene)@ =~= old(scene)@ + st.emit);
        }
        Ok(())
    } else if op_is(o, "f*") && n_args == 0 {
        scene.fill(
            FillRule::EvenOdd,
            CTM::default(),
            state.gs.non_stroke_color,
            &state.gs.path,
        );
        state.gs.path = BezPath::new();
        proof {
            let st = step_v(env@, old(state)@, op.operator@, op.operands@);
            assert(final(scene)@ =~= old(scene)@ + st.emit);
        }
        Ok(())
    } else if op_is(o, "w") && n_args == 1 {
        state.gs.line_width = op.operands[0].as_fx()?;
        Ok(())
    } else if op_is(o, "S") && n_args == 0 {
        let width = fx_mul(state.gs.line_width, env.scale.scale);
        scene.stroke(width, CTM::default(), state.gs.stroke_color, &state.gs.path);
        state.gs.path = BezPath::new();
        proof {
            let st = step_v(env@, old(state)@, op.operator@, op.operands@);
            assert(final(scene)@ =~= old(scene)@ + st.emit);
        }
        Ok(())
    } else if op_is(o, "B") && n_args == 0 {
        scene.fill(
            FillRule::NonZero,
            CTM::default(),
            state.gs.non_stroke_color,
            &state.gs.path,
        );
        let width = fx_mul(state.gs.line_width, env.scale.scale);
        scene.stroke(width, CTM::default(), state.gs.stroke_color, &state.gs.path);
        state.gs.path = BezPath::new();
        proof {
            let st = step_v(env@, old(state)@, op.operator@, op.operands@);
            assert(final(scene)@ =~= old(scene)@ + st.emit);
        }
        Ok(())
    } else if op_is(o, "gs") && n_args == 1 && is_name(&op.operands[0]) {
        match &op.operands[0] {
            Obj::Name(name) => {
                match find_alpha(&env.ext_gstate, name) {
                    Some(al) => {
                        match al.fill_alpha {
                            Some(ca) => {
                                let c = state.gs.non_stroke_color;
                                state.gs.non_stroke_color = Color {
                                    r: c.r,
                                    g: c.g,
                                    b: c.b,
                                    a: ca,
                                };
                            },
                            None => {},
                        }
                        match al.stroke_alpha {
                            Some(ca) => {
                                let c = state.gs.stroke_color;
                                state.gs.stroke_color = Color { r: c.r, g: c.g, b: c.b, a: ca };
                            },
                            None => {},
                        }
                    },
                    None => {},
                }
            },
            _ => {},
        }
        Ok(())
    } else {
        Ok(())
    }
}

/// The lengths and characters of every recognised operator name, so that
/// the dispatcher's guards can be told apart.
pub proof fn lemma_opname_facts()
    ensures
        ("BT"@).len() == 2 && ("BT"@)[0] == 'B' && ("BT"@)[1] == 'T',
        ("Tm"@).len() == 2 && ("Tm"@)[0] == 'T' && ("Tm"@)[1] == 'm',
        ("Tf"@).len() == 2 && ("Tf"@)[0] == 'T' && ("Tf"@)[1] == 'f',
        ("TJ"@).len() == 2 && ("TJ"@)[0] == 'T' && ("TJ"@)[1] == 'J',
        ("ET"@).len() == 2 && ("ET"@)[0] == 'E' && ("ET"@)[1] == 'T',
        ("cm"@).len() == 2 && ("cm"@)[0] == 'c' && ("cm"@)[1] == 'm',
        ("q"@).len() == 1 && ("q"@)[0] == 'q',
        ("Q"@).len() == 1 && ("Q"@)[0] == 'Q',
        ("scn"@).len() == 3 && ("scn"@)[0] == 's',
        ("SCN"@).len() == 3 && ("SCN"@)[0] == 'S',
        ("m"@).len() == 1 && ("m"@)[0] == 'm',
        ("l"@).len() == 1 && ("l"@)[0] == 'l',
        ("v"@).len() == 1 && ("v"@)[0] == 'v',
        ("c"@).len() == 1 && ("c"@)[0] == 'c',
        ("re"@).len() == 2 && ("re"@)[0] == 'r' && ("re"@)[1] == 'e',
        ("h"@).len() == 1 && ("h"@)[0] == 'h',
        ("f"@).len() == 1 && ("f"@)[0] == 'f',
        ("f*"@).len() == 2 && ("f*"@)[0] == 'f' && ("f*"@)[1] == '*',
        ("w"@).len() == 1 && ("w"@)[0] == 'w',
        ("S"@).len() == 1 && ("S"@)[0] == 'S',
        ("B"@).len() == 1 && ("B"@)[0] == 'B',
        ("gs"@).len() == 2 && ("gs"@)[0] == 'g' && ("gs"@)[1] == 's',
{
    reveal_strlit("BT");
    reveal_strlit("Tm");
    reveal_strlit("Tf");
    reveal_strlit("TJ");
    reveal_strlit("ET");
    reveal_strlit("cm");
    reveal_strlit("q");
    reveal_strlit("Q");
    reveal_strlit("scn");
    reveal_strlit("SCN");
    reveal_strlit("m");
    reveal_strlit("l");
    reveal_strlit("v");
    reveal_strlit("c");
    reveal_strlit("re");
    reveal_strlit("h");
    reveal_strlit("f");
    reveal_strlit("f*");
    reveal_strlit("w");
    reveal_strlit("S");
    reveal_strlit("B");
    reveal_strlit("gs");
}

/// After any painting operation — f, f*, S or B — the path under
/// construction is empty.
pub proof fn lemma_paint_clears_path(env: EnvV, s: StateV, name: Seq<char>, args: Seq<Obj>)
    requires
        name == "f"@ || name == "f*"@ || name == "S"@ || name == "B"@,
        args.len() == 0,
    ensures
        step_v(env, s, name, args).state.gs.path == Seq::<PathEl>::empty(),
{
    lemma_opname_facts();
    if name == "f"@ {
        assert(step_v(env, s, name, args) == op_fill(s, FillRule::NonZero));
    } else if name == "f*"@ {
        assert(step_v(env, s, name, args) == op_fill(s, FillRule::EvenOdd));
    } else if name == "S"@ {
        assert(step_v(env, s, name, args) == op_stroke(s, env.scale));
    } else {
        assert(step_v(env, s, name, args) == op_fill_stroke(s, env.scale));
    }
}

/// What a whole operation sequence leaves behind: the final state, every
/// emission in stream order, and the first error if one aborted the run.
/// An aborted run keeps the state and the emissions up to the failing
/// operation.
#[verifier::ext_equal]
pub ghost struct RunR {
    pub state: StateV,
    pub emit: Seq<SceneOpV>,
    pub err: Option<Error>,
}

/// No operation touches the save stack except q, which pushes the graphics
/// state, and Q, which pops the last saved one.
pub proof fn lemma_step_stack_shape(env: EnvV, s: StateV, name: Seq<char>, args: Seq<Obj>)
    ensures
        ({
            let st = step_v(env, s, name, args);
            st.err is None ==> {
                ||| st.state.stack == s.stack
                ||| st.state.stack == s.stack.push(s.gs)
                ||| (s.stack.len() > 0 && st.state.stack == s.stack.drop_last())
            }
        }),
{
}

/// Fold [`step_v`] over an operation sequence, stopping at the first error.
pub open spec fn run_v(env: EnvV, s: StateV, ops: Seq<Op>) -> RunR
    decreases ops.len(),
{
    if ops.len() == 0 {
        RunR { state: s, emit: Seq::<SceneOpV>::empty(), err: None }
    } else {
        let st = step_v(env, s, ops[0].operator@, ops[0].operands@);
        if st.err is Some {
            RunR { state: s, emit: Seq::<SceneOpV>::empty(), err: st.err }
        } else {
            let rest = run_v(env, st.state, ops.drop_first());
            RunR { state: rest.state, emit: st.emit + rest.emit, err: rest.err }
        }
    }
}

/// Throughout `ops`, the save stack never dips below `depth` frames.
pub open spec fn stack_safe(env: EnvV, s: StateV, depth: int, ops: Seq<Op>) -> bool
    decreases ops.len(),
{
    if ops.len() == 0 {
        true
    } else {
        let st = step_v(env, s, ops[0].operator@, ops[0].operands@);
        st.err is Some || (st.state.stack.len() >= depth && stack_safe(
            env,
            st.state,
            depth,
            ops.drop_first(),
        ))
    }
}

/// A run that never dips below `depth` frames leaves the bottom `depth`
/// frames of the save stack untouched.
pub proof fn lemma_run_preserves_deep_stack(env: EnvV, s: StateV, ops: Seq<Op>, depth: int)
    requires
        0 <= depth <= s.stack.len(),
        stack_safe(env, s, depth, ops),
        run_v(env, s, ops).err is None,
    ensures
        run_v(env, s, ops).state.stack.len() >= depth,
        run_v(env, s, ops).state.stack.subrange(0, depth) == s.stack.subrange(0, depth),
    decreases ops.len(),
{
    if ops.len() == 0 {
    } else {
        let st = step_v(env, s, ops[0].operator@, ops[0].operands@);
        lemma_step_stack_shape(env, s, ops[0].operator@, ops[0].operands@);
        assert(st.state.stack.subrange(0, depth) =~= s.stack.subrange(0, depth));
        lemma_run_preserves_deep_stack(env, st.state, ops.drop_first(), depth);
    }
}

/// A run of `a` without error followed by `b` is the run of `a + b`: the
/// states chain and the emissions concatenate.
pub proof fn lemma_run_append(env: EnvV, s: StateV, a: Seq<Op>, b: Seq<Op>)
    requires
        run_v(env, s, a).err is None,
    ensures
        ({
            let ra = run_v(env, s, a);
            let rb = run_v(env, ra.state, b);
            run_v(env, s, a + b) == (RunR {
                state: rb.state,
                emit: ra.emit + rb.emit,
                err: rb.err,
            })
        }),
    decreases a.len(),
{
    let ra = run_v(env, s, a);
    let rb = run_v(env, ra.state, b);
    if a.len() == 0 {
        assert(a + b =~= b);
        assert(ra.emit + rb.emit =~= rb.emit);
        assert(run_v(env, s, a + b) =~= (RunR {
            state: rb.state,
            emit: ra.emit + rb.emit,
            err: rb.err,
        }));
    } else {
        let st = step_v(env, s, a[0].operator@, a[0].operands@);
        assert((a + b)[0] == a[0]);
        assert((a + b).drop_first() =~= a.drop_first() + b);
        lemma_run_append(env, st.state, a.drop_first(), b);
        let ra1 = run_v(env, st.state, a.drop_first());
        assert(st.emit + (ra1.emit + rb.emit) =~= (st.emit + ra1.emit) + rb.emit);
        assert(run_v(env, s, a + b) =~= (RunR {
            state: rb.state,
            emit: ra.emit + rb.emit,
            err: rb.err,
        }));
    }
}

/// Running a single operation is stepping it.
pub proof fn lemma_run_one(env: EnvV, s: StateV, op1: Op)
    ensures
        ({
            let st = step_v(env, s, op1.operator@, op1.operands@);
            &&& run_v(env, s, seq![op1]).err == st.err
            &&& run_v(env, s, seq![op1]).state == (if st.err is Some {
                s
            } else {
                st.state
            })
            &&& run_v(env, s, seq![op1]).emit == (if st.err is Some {
                Seq::<SceneOpV>::empty()
            } else {
                st.emit
            })
        }),
{
    let ops = seq![op1];
    assert(ops.len() == 1);
    assert(ops[0] == op1);
    assert(ops.drop_first() =~= Seq::<Op>::empty());
    let st = step_v(env, s, op1.operator@, op1.operands@);
    if st.err is Some {
    } else {
        assert(run_v(env, st.state, ops.drop_first()).emit =~= Seq::<SceneOpV>::empty());
        assert(st.emit + Seq::<SceneOpV>::empty() =~= st.emit);
    }
}

/// A q with no operands steps by [`op_save`].
pub proof fn lemma_step_is_save(env: EnvV, s: StateV, args: Seq<Obj>)
    requires
        args.len() == 0,
    ensures
        step_v(env, s, "q"@, args) == op_save(s),
{
    lemma_opname_facts();
}

/// A Q with no operands steps by [`op_restore`].
pub proof fn lemma_step_is_restore(env: EnvV, s: StateV, args: Seq<Obj>)
    requires
        args.len() == 0,
    ensures
        step_v(env, s, "Q"@, args) == op_restore(s),
{
    lemma_opname_facts();
}

/// After a matched q ... Q pair whose inner operations run without error,
/// never pop past the saved frame, and leave the stack depth where it was,
/// the graphics state and the save stack are exactly what they were before
/// the q. (What the inner operations emitted stays in the scene.)
#[verifier::rlimit(100)]
pub proof fn lemma_q_restores(env: EnvV, s: StateV, inner: Seq<Op>, save: Op, restore: Op)
    requires
        save.operator@ == "q"@ && save.operands@.len() == 0,
        restore.operator@ == "Q"@ && restore.operands@.len() == 0,
        ({
            let s1 = StateV { stack: s.stack.push(s.gs), ..s };
            &&& stack_safe(env, s1, s.stack.len() as int + 1, inner)
            &&& run_v(env, s1, inner).err is None
            &&& run_v(env, s1, inner).state.stack.len() == s.stack.len() as int + 1
        }),
    ensures
        ({
            let rr = run_v(env, s, seq![save] + inner + seq![restore]);
            &&& rr.err is None
            &&& rr.state.gs == s.gs
            &&& rr.state.stack == s.stack
        }),
{
    let ops = seq![save] + inner + seq![restore];
    let s1 = StateV { stack: s.stack.push(s.gs), ..s };
    let st0 = step_v(env, s, save.operator@, save.operands@);
    lemma_step_is_save(env, s, save.operands@);
    assert(st0 == op_save(s));
    assert(st0.state =~= s1);
    assert(ops[0] == save);
    assert(ops.drop_first() =~= inner + seq![restore]);
    let ri = run_v(env, s1, inner);
    lemma_run_preserves_deep_stack(env, s1, inner, s.stack.len() as int + 1);
    assert(ri.state.stack =~= s1.stack) by {
        assert(ri.state.stack.subrange(0, s.stack.len() as int + 1) == s1.stack.subrange(
            0,
            s.stack.len() as int + 1,
        ));
        assert(s1.stack.subrange(0, s.stack.len() as int + 1) =~= s1.stack);
        assert(ri.state.stack.subrange(0, s.stack.len() as int + 1) =~= ri.state.stack);
    }
    lemma_run_append(env, s1, inner, seq![restore]);
    let rq = run_v(env, ri.state, seq![restore]);
    let stq = step_v(env, ri.state, restore.operator@, restore.operands@);
    lemma_step_is_restore(env, ri.state, restore.operands@);
    assert(stq == op_restore(ri.state));
    assert(ri.state.stack.len() > 0);
    assert(stq.err is None);
    assert(stq.state.gs == s1.stack.last());
    assert(stq.state.stack =~= s.stack) by {
        assert(stq.state.stack =~= s1.stack.drop_last());
        assert(s1.stack.drop_last() =~= s.stack);
    }
    lemma_run_one(env, ri.state, restore);
    assert(rq.state == stq.state && rq.err is None);
    assert(run_v(env, s, ops).state == rq.state);
    assert(run_v(env, s, ops).err is None);
}

/// One fill is budgeted for each f, f* or B operation.
pub open spec fn paint_fill_budget(name: Seq<char>, args: Seq<Obj>) -> int {
    if (name == "f"@ || name == "f*"@ || name == "B"@) && args.len() == 0 {
        1
    } else {
        0
    }
}

/// How many f, f* and B operations a sequence holds.
pub open spec fn count_fill_ops(ops: Seq<Op>) -> int
    decreases ops.len(),
{
    if ops.len() == 0 {
        0
    } else {
        paint_fill_budget(ops[0].operator@, ops[0].operands@) + count_fill_ops(
            ops.drop_first(),
        )
    }
}

/// How many outlined glyphs one operation shows: only a well-formed TJ in
/// an open text object with a font shows any.
pub open spec fn step_outlined(env: EnvV, s: StateV, name: Seq<char>, args: Seq<Obj>) -> int {
    if name == "TJ"@ && args.len() == 1 {
        match args[0] {
            Obj::Array(elems) => match s.gs.text_state {
                Some(ts) => match ts.font {
                    Some(f) => tj_elems_outlined(f, elems@),
                    None => 0int,
                },
                None => 0int,
            },
            _ => 0int,
        }
    } else {
        0int
    }
}

/// How many outlined glyphs the TJ operations along a run show.
pub open spec fn run_outlined(env: EnvV, s: StateV, ops: Seq<Op>) -> int
    decreases ops.len(),
{
    if ops.len() == 0 {
        0
    } else {
        let st = step_v(env, s, ops[0].operator@, ops[0].operands@);
        if st.err is Some {
            0
        } else {
            step_outlined(env, s, ops[0].operator@, ops[0].operands@) + run_outlined(
                env,
                st.state,
                ops.drop_first(),
            )
        }
    }
}

/// One operation emits at most one fill if it is f, f* or B, plus one fill
/// per outlined glyph if it is a TJ; and never fewer than none.
#[verifier::rlimit(100)]
pub proof fn lemma_step_fills(env: EnvV, s: StateV, name: Seq<char>, args: Seq<Obj>)
    ensures
        count_fills(step_v(env, s, name, args).emit) <= paint_fill_budget(name, args)
            + step_outlined(env, s, name, args),
        step_outlined(env, s, name, args) >= 0,
        count_fills(step_v(env, s, name, args).emit) >= 0,
{
    lemma_opname_facts();
    let st = step_v(env, s, name, args);
    lemma_count_fills_nonneg(st.emit);
    if name == "TJ"@ && args.len() == 1 {
        match args[0] {
            Obj::Array(elems) => match s.gs.text_state {
                Some(ts) => match ts.font {
                    Some(f) => {
                        lemma_tj_elems_fills(f, ts, s.gs.non_stroke_color, env.scale, elems@);
                    },
                    None => {},
                },
                None => {},
            },
            _ => {},
        }
    } else if (name == "f"@ || name == "f*"@) && args.len() == 0 {
        lemma_count_fills_one(st.emit[0]);
        assert(st.emit =~= seq![st.emit[0]]);
    } else if name == "B"@ && args.len() == 0 {
        lemma_count_fills_one(st.emit[1]);
        assert(st.emit.drop_first() =~= seq![st.emit[1]]);
        assert(count_fills(st.emit) == 1 + count_fills(seq![st.emit[1]]));
    } else if name == "S"@ && args.len() == 0 {
        lemma_count_fills_one(st.emit[0]);
        assert(st.emit =~= seq![st.emit[0]]);
    } else {
        assert(st.emit =~= Seq::<SceneOpV>::empty());
    }
}

/// Outlined-glyph counts along a run are never negative.
pub proof fn lemma_run_outlined_nonneg(env: EnvV, s: StateV, ops: Seq<Op>)
    ensures
        run_outlined(env, s, ops) >= 0,
    decreases ops.len(),
{
    if ops.len() == 0 {
    } else {
        let st = step_v(env, s, ops[0].operator@, ops[0].operands@);
        if st.err is Some {
        } else {
            lemma_step_fills(env, s, ops[0].operator@, ops[0].operands@);
            lemma_run_outlined_nonneg(env, st.state, ops.drop_first());
        }
    }
}

/// Fill-op counts are never negative.
pub proof fn lemma_count_fill_ops_nonneg(ops: Seq<Op>)
    ensures
        count_fill_ops(ops) >= 0,
    decreases ops.len(),
{
    if ops.len() == 0 {
    } else {
        lemma_count_fill_ops_nonneg(ops.drop_first());
    }
}

/// Over any operation sequence, the scene receives at most one fill for
/// each f, f* or B operation plus one for each TJ glyph with a non-empty
/// outline.
pub proof fn lemma_fill_count(env: EnvV, s: StateV, ops: Seq<Op>)
    ensures
        count_fills(run_v(env, s, ops).emit) <= count_fill_ops(ops) + run_outlined(env, s, ops),
    decreases ops.len(),
{
    if ops.len() == 0 {
    } else {
        let st = step_v(env, s, ops[0].operator@, ops[0].operands@);
        if st.err is Some {
            lemma_count_fill_ops_nonneg(ops);
        } else {
            let rest = run_v(env, st.state, ops.drop_first());
            lemma_step_fills(env, s, ops[0].operator@, ops[0].operands@);
            lemma_fill_count(env, st.state, ops.drop_first());
            lemma_count_fills_add(st.emit, rest.emit);
        }
    }
}

/// Execute an operation sequence in stream order: the executable form of
/// [`run_v`]. Emissions reach the scene in operator order; the first error
/// stops the run and is returned, with everything emitted before it kept.
#[verifier::rlimit(100)]
pub fn run_ops(
    env: &Env,
    state: &mut State,
    scene: &mut Scene,
    ops: &Vec<Op>,
    settings: &RenderSettings,
) -> (r: Result<(), Error>)
    ensures
        ({
            let rr = run_v(env@, old(state)@, ops@);
            &&& final(state)@ == rr.state
            &&& final(scene)@ == old(scene)@ + rr.emit
            &&& match r {
                Ok(()) => rr.err is None,
                Err(e) => rr.err == Some(e),
            }
        }),
{
    let ghost s0: StateV = state@;
    let ghost scene0: Seq<SceneOpV> = scene@;
    let ghost full: RunR = run_v(env@, s0, ops@);
    let mut i: usize = 0;
    proof {
        assert(ops@.skip(0) =~= ops@);
        assert(scene0 + Seq::<SceneOpV>::empty() =~= scene0);
    }
    while i < ops.len()
        invariant
            i <= ops.len(),
            s0 == old(state)@,
            scene0 == old(scene)@,
            full == run_v(env@, s0, ops@),
            scene0.len() <= scene@.len(),
            scene@.subrange(0, scene0.len() as int) == scene0,
            ({
                let rem = run_v(env@, state@, ops@.skip(i as int));
                &&& full.state == rem.state
                &&& full.err == rem.err
                &&& full.emit == scene@.skip(scene0.len() as int) + rem.emit
            }),
        decreases ops.len() - i,
    {
        let ghost scene_it: Seq<SceneOpV> = scene@;
        let ghost state_it: StateV = state@;
        proof {
            assert(ops@.skip(i as int).drop_first() =~= ops@.skip(i as int + 1));
            assert(ops@.skip(i as int)[0] == ops@[i as int]);
        }
        match apply_op(env, state, scene, &ops[i], settings) {
            Ok(()) => {
                proof {
                    let st = step_v(env@, state_it, ops@[i as int].operator@, ops@[
                        i as int].operands@);
                    let rest = run_v(env@, state@, ops@.skip(i as int + 1));
                    assert(scene@.skip(scene0.len() as int) =~= scene_it.skip(
                        scene0.len() as int,
                    ) + st.emit);
                    assert(full.emit =~= scene@.skip(scene0.len() as int) + rest.emit);
                }
            },
            Err(e) => {
                proof {
                    let st = step_v(env@, state_it, ops@[i as int].operator@, ops@[
                        i as int].operands@);
                    let rem = run_v(env@, state_it, ops@.skip(i as int));
                    assert(st.err == Some(e));
                    assert(state@ == state_it);
                    assert(rem.err == st.err);
                    assert(rem.state == state_it);
                    assert(rem.emit =~= Seq::<SceneOpV>::empty());
                    assert(full.err == Some(e));
                    assert(full.state == state_it);
                    assert(full.emit =~= scene@.skip(scene0.len() as int));
                    assert(scene@ =~= scene0 + full.emit);
                    assert(s0 == old(state)@);
                }
                return Err(e);
            },
        }
        i = i + 1;
    }
    proof {
        assert(ops@.skip(ops@.len() as int) =~= Seq::<Op>::empty());
        assert(full.emit =~= scene@.skip(scene0.len() as int));
        assert(scene@ =~= scene0 + full.emit);
    }
    Ok(())
}

} // verus!
