//! Whole-page scenarios: the interpreter against hand-built documents.

use rasterizer::ctm::{Coord, DeviceScale};
use rasterizer::dimensions;
use rasterizer::draw_doc;
use rasterizer::error::Error;
use rasterizer::fx::FX_ONE;
use rasterizer::interp::{apply_op, run_ops, AlphaOverrides, Env};
use rasterizer::object::{Dict, Document, Obj, Op};
use rasterizer::scene::{FillRule, PathEl, Scene, SceneOp};
use rasterizer::state::State;
use rasterizer::text::font::{FaceData, Font, FontSource, GlyphSeg};
use rasterizer::RenderSettings;

const ONE: i64 = FX_ONE;

fn rnum(units: i64) -> Obj {
    Obj::Real(units * ONE)
}

fn op(name: &str, args: Vec<Obj>) -> Op {
    Op { operator: name.to_string(), operands: args }
}

fn dict(entries: Vec<(&str, Obj)>) -> Dict {
    Dict { entries: entries.into_iter().map(|(k, v)| (k.to_string(), v)).collect() }
}

fn media_box(w: i64, h: i64) -> (&'static str, Obj) {
    ("MediaBox", Obj::Array(vec![rnum(0), rnum(0), rnum(w), rnum(h)]))
}

/// A document with one page of the given content.
fn one_page_doc(ops: Vec<Op>) -> Document {
    Document {
        objects: vec![((1, 0), Obj::Dict(dict(vec![media_box(100, 100)])))],
        pages: vec![(1, (1, 0))],
        page_fonts: vec![(1, vec![])],
        page_contents: vec![(1, ops)],
    }
}

fn plain_env(height: u32, scale_units: i64) -> Env {
    Env {
        fonts: vec![],
        ext_gstate: vec![],
        scale: DeviceScale { height, scale: scale_units * ONE },
    }
}

fn run(env: &Env, ops: Vec<Op>) -> (Result<(), Error>, Scene) {
    let mut scene = Scene::new();
    let mut state = State::default();
    let r = run_ops(env, &mut state, &mut scene, &ops, &RenderSettings::default());
    (r, scene)
}

fn move_of(el: &PathEl) -> Coord {
    match el {
        PathEl::MoveTo(p) => *p,
        other => panic!("expected MoveTo, got {:?}", other),
    }
}

fn line_of(el: &PathEl) -> Coord {
    match el {
        PathEl::LineTo(p) => *p,
        other => panic!("expected LineTo, got {:?}", other),
    }
}

#[test]
fn empty_page_emits_nothing() {
    let doc = one_page_doc(vec![]);
    let page_dict = match doc.get_object((1, 0)) {
        Some(Obj::Dict(d)) => d,
        _ => panic!("page dictionary missing"),
    };
    assert_eq!(dimensions(page_dict), Ok((100 * ONE, 100 * ONE)));
    let mut scene = Scene::new();
    let r = draw_doc(&doc, &mut scene, 200, 200, 1, &RenderSettings::default(), vec![]);
    assert!(r.is_ok());
    assert_eq!(scene.ops.len(), 0);
}

#[test]
fn one_stroked_line() {
    // 1 w 10 10 m 90 90 l S  on a 100x100 page at scale 1
    let env = plain_env(100, 1);
    let (r, scene) = run(
        &env,
        vec![
            op("w", vec![rnum(1)]),
            op("m", vec![rnum(10), rnum(10)]),
            op("l", vec![rnum(90), rnum(90)]),
            op("S", vec![]),
        ],
    );
    assert!(r.is_ok());
    assert_eq!(scene.ops.len(), 1);
    match &scene.ops[0] {
        SceneOp::Stroke { width, color, path, .. } => {
            assert_eq!(*width, ONE);
            assert_eq!((color.r, color.g, color.b, color.a), (0, 0, 0, ONE));
            assert_eq!(path.els.len(), 2);
            assert_eq!(move_of(&path.els[0]), Coord { x: 10 * ONE, y: 90 * ONE });
            assert_eq!(line_of(&path.els[1]), Coord { x: 90 * ONE, y: 10 * ONE });
        },
        other => panic!("expected a stroke, got {:?}", other),
    }
}

#[test]
fn rect_fill() {
    // 0.5 0.5 0.5 scn 0 0 50 50 re f  on 100x100 at scale 1
    let env = plain_env(100, 1);
    let (r, scene) = run(
        &env,
        vec![
            op(
                "scn",
                vec![Obj::Real(ONE / 2), Obj::Real(ONE / 2), Obj::Real(ONE / 2)],
            ),
            op("re", vec![rnum(0), rnum(0), rnum(50), rnum(50)]),
            op("f", vec![]),
        ],
    );
    assert!(r.is_ok());
    assert_eq!(scene.ops.len(), 1);
    match &scene.ops[0] {
        SceneOp::Fill { rule, color, path, .. } => {
            assert!(matches!(rule, FillRule::NonZero));
            assert_eq!((color.r, color.g, color.b, color.a), (ONE / 2, ONE / 2, ONE / 2, ONE));
            assert_eq!(path.els.len(), 5);
            assert_eq!(move_of(&path.els[0]), Coord { x: 0, y: 100 * ONE });
            assert_eq!(line_of(&path.els[1]), Coord { x: 50 * ONE, y: 100 * ONE });
            assert_eq!(line_of(&path.els[2]), Coord { x: 50 * ONE, y: 50 * ONE });
            assert_eq!(line_of(&path.els[3]), Coord { x: 0, y: 50 * ONE });
            assert!(matches!(path.els[4], PathEl::ClosePath));
        },
        other => panic!("expected a fill, got {:?}", other),
    }
}

#[test]
fn q_q_isolates_the_transform() {
    // q 2 0 0 2 0 0 cm 10 10 m 20 20 l S Q 30 30 m 40 40 l S
    let env = plain_env(100, 1);
    let (r, scene) = run(
        &env,
        vec![
            op("q", vec![]),
            op(
                "cm",
                vec![rnum(2), rnum(0), rnum(0), rnum(2), rnum(0), rnum(0)],
            ),
            op("m", vec![rnum(10), rnum(10)]),
            op("l", vec![rnum(20), rnum(20)]),
            op("S", vec![]),
            op("Q", vec![]),
            op("m", vec![rnum(30), rnum(30)]),
            op("l", vec![rnum(40), rnum(40)]),
            op("S", vec![]),
        ],
    );
    assert!(r.is_ok());
    assert_eq!(scene.ops.len(), 2);
    match &scene.ops[0] {
        SceneOp::Stroke { path, .. } => {
            assert_eq!(move_of(&path.els[0]), Coord { x: 20 * ONE, y: 80 * ONE });
            assert_eq!(line_of(&path.els[1]), Coord { x: 40 * ONE, y: 60 * ONE });
        },
        other => panic!("expected a stroke, got {:?}", other),
    }
    match &scene.ops[1] {
        SceneOp::Stroke { path, .. } => {
            assert_eq!(move_of(&path.els[0]), Coord { x: 30 * ONE, y: 70 * ONE });
            assert_eq!(line_of(&path.els[1]), Coord { x: 40 * ONE, y: 60 * ONE });
        },
        other => panic!("expected a stroke, got {:?}", other),
    }
}

fn test_font() -> Font {
    // units_per_em 1000, two glyphs of width 500/1000 em, each a dot outline
    Font {
        name: "TestFont".to_string(),
        units_per_em: 1000,
        widths: vec![500 * ONE, 500 * ONE],
        glyphs: vec![
            Some(vec![GlyphSeg::MoveTo(Coord { x: 0, y: 0 }), GlyphSeg::Close]),
            Some(vec![GlyphSeg::MoveTo(Coord { x: 0, y: 0 }), GlyphSeg::Close]),
        ],
    }
}

#[test]
fn tj_positions_glyphs_along_the_pen() {
    // BT 10 0 0 10 0 0 Tm /F0 10 Tf [<0000 0001>] TJ ET at scale 1
    let env = Env {
        fonts: vec![("F0".to_string(), test_font())],
        ext_gstate: vec![],
        scale: DeviceScale { height: 100, scale: ONE },
    };
    let (r, scene) = run(
        &env,
        vec![
            op("BT", vec![]),
            op(
                "Tm",
                vec![rnum(10), rnum(0), rnum(0), rnum(10), rnum(0), rnum(0)],
            ),
            op("Tf", vec![Obj::Name("F0".to_string()), Obj::Integer(10)]),
            op("TJ", vec![Obj::Array(vec![Obj::Str(vec![0, 0, 0, 1])])]),
            op("ET", vec![]),
        ],
    );
    assert!(r.is_ok());
    assert_eq!(scene.ops.len(), 2);
    // first glyph at pen 0, second advanced by 500/1000 em * size 10 = 5
    // text units, scaled by the text matrix to 50 device pixels
    match &scene.ops[0] {
        SceneOp::Fill { rule, path, .. } => {
            assert!(matches!(rule, FillRule::EvenOdd));
            assert_eq!(move_of(&path.els[0]), Coord { x: 0, y: 100 * ONE });
        },
        other => panic!("expected a fill, got {:?}", other),
    }
    match &scene.ops[1] {
        SceneOp::Fill { path, .. } => {
            assert_eq!(move_of(&path.els[0]), Coord { x: 50 * ONE, y: 100 * ONE });
        },
        other => panic!("expected a fill, got {:?}", other),
    }
}

#[test]
fn tj_advances_the_pen_by_the_widths() {
    let env = Env {
        fonts: vec![("F0".to_string(), test_font())],
        ext_gstate: vec![],
        scale: DeviceScale { height: 100, scale: ONE },
    };
    let mut scene = Scene::new();
    let mut state = State::default();
    let ops = vec![
        op("BT", vec![]),
        op("Tf", vec![Obj::Name("F0".to_string()), Obj::Integer(10)]),
        op("TJ", vec![Obj::Array(vec![Obj::Str(vec![0, 0, 0, 1]), Obj::Integer(200)])]),
    ];
    let r = run_ops(&env, &mut state, &mut scene, &ops, &RenderSettings::default());
    assert!(r.is_ok());
    let ts = state.gs.text_state.as_ref().expect("text state open");
    // two glyphs of 500 each, then a numeric element pulling back 200
    assert_eq!(ts.position, (500 + 500 - 200) * ONE);
}

#[test]
fn tm_resets_the_text_state_wholesale() {
    // Tm replaces the whole text state, so a font selected before it is
    // forgotten and the TJ fails
    let env = Env {
        fonts: vec![("F0".to_string(), test_font())],
        ext_gstate: vec![],
        scale: DeviceScale { height: 100, scale: ONE },
    };
    let (r, _) = run(
        &env,
        vec![
            op("BT", vec![]),
            op("Tf", vec![Obj::Name("F0".to_string()), Obj::Integer(10)]),
            op(
                "Tm",
                vec![rnum(1), rnum(0), rnum(0), rnum(1), rnum(0), rnum(0)],
            ),
            op("TJ", vec![Obj::Array(vec![])]),
        ],
    );
    assert_eq!(r, Err(Error::MissingTextState));
}

#[test]
fn v_uses_the_current_point_as_first_control() {
    let env = plain_env(100, 1);
    let (r, scene) = run(
        &env,
        vec![
            op("m", vec![rnum(10), rnum(10)]),
            op("v", vec![rnum(20), rnum(20), rnum(30), rnum(10)]),
            op("S", vec![]),
        ],
    );
    assert!(r.is_ok());
    match &scene.ops[0] {
        SceneOp::Stroke { path, .. } => {
            assert_eq!(path.els.len(), 2);
            match path.els[1] {
                PathEl::CurveTo(c1, c2, c3) => {
                    // the first control point is the device-space current point
                    assert_eq!(c1, Coord { x: 10 * ONE, y: 90 * ONE });
                    assert_eq!(c2, Coord { x: 20 * ONE, y: 80 * ONE });
                    assert_eq!(c3, Coord { x: 30 * ONE, y: 90 * ONE });
                },
                other => panic!("expected CurveTo, got {:?}", other),
            }
        },
        other => panic!("expected a stroke, got {:?}", other),
    }
}

#[test]
fn unbalanced_q_fails_and_leaves_the_scene_empty() {
    let doc = one_page_doc(vec![op("Q", vec![])]);
    let mut scene = Scene::new();
    let r = draw_doc(&doc, &mut scene, 100, 100, 1, &RenderSettings::default(), vec![]);
    assert_eq!(r, Err(Error::UnbalancedStack));
    assert_eq!(scene.ops.len(), 0);
}

#[test]
fn tj_outside_text_object_is_fatal() {
    let env = plain_env(100, 1);
    let (r, scene) = run(&env, vec![op("TJ", vec![Obj::Array(vec![])])]);
    assert_eq!(r, Err(Error::MissingTextState));
    assert_eq!(scene.ops.len(), 0);
}

#[test]
fn tj_before_tf_is_fatal() {
    let env = plain_env(100, 1);
    let (r, _) = run(
        &env,
        vec![op("BT", vec![]), op("TJ", vec![Obj::Array(vec![])])],
    );
    assert_eq!(r, Err(Error::MissingTextState));
}

#[test]
fn bad_operand_is_fatal() {
    let env = plain_env(100, 1);
    let (r, _) = run(&env, vec![op("w", vec![Obj::Name("x".to_string())])]);
    assert_eq!(r, Err(Error::BadOperand));
}

#[test]
fn unknown_operators_are_ignored() {
    let env = plain_env(100, 1);
    let (r, scene) = run(
        &env,
        vec![
            op("Td", vec![rnum(1), rnum(1)]),
            op("rg", vec![rnum(1), rnum(0), rnum(0)]),
            op("W", vec![]),
            // a recognised name with the wrong operand count is ignored too
            op("cm", vec![rnum(1)]),
        ],
    );
    assert!(r.is_ok());
    assert_eq!(scene.ops.len(), 0);
}

#[test]
fn missing_page_is_fatal() {
    let doc = one_page_doc(vec![]);
    let mut scene = Scene::new();
    let r = draw_doc(&doc, &mut scene, 100, 100, 2, &RenderSettings::default(), vec![]);
    assert_eq!(r, Err(Error::MissingPage));
}

#[test]
fn bad_media_box_is_fatal() {
    let doc = Document {
        objects: vec![(
            (1, 0),
            Obj::Dict(dict(vec![("MediaBox", Obj::Array(vec![rnum(0), rnum(0), rnum(100)]))])),
        )],
        pages: vec![(1, (1, 0))],
        page_fonts: vec![(1, vec![])],
        page_contents: vec![(1, vec![])],
    };
    let mut scene = Scene::new();
    let r = draw_doc(&doc, &mut scene, 100, 100, 1, &RenderSettings::default(), vec![]);
    assert_eq!(r, Err(Error::BadMediaBox));
}

#[test]
fn gs_overrides_the_alphas() {
    let env = Env {
        fonts: vec![],
        ext_gstate: vec![(
            "G1".to_string(),
            AlphaOverrides { fill_alpha: Some(ONE / 2), stroke_alpha: None },
        )],
        scale: DeviceScale { height: 100, scale: ONE },
    };
    let mut scene = Scene::new();
    let mut state = State::default();
    let r = apply_op(
        &env,
        &mut state,
        &mut scene,
        &op("gs", vec![Obj::Name("G1".to_string())]),
        &RenderSettings::default(),
    );
    assert!(r.is_ok());
    assert_eq!(state.gs.non_stroke_color.a, ONE / 2);
    assert_eq!(state.gs.stroke_color.a, ONE);
}

#[test]
fn b_fills_then_strokes_and_clears_the_path() {
    let env = plain_env(100, 1);
    let (r, scene) = run(
        &env,
        vec![
            op("m", vec![rnum(0), rnum(0)]),
            op("l", vec![rnum(10), rnum(0)]),
            op("B", vec![]),
            op("S", vec![]),
        ],
    );
    assert!(r.is_ok());
    // B emits a fill then a stroke; the second S strokes an empty path
    assert_eq!(scene.ops.len(), 3);
    assert!(matches!(scene.ops[0], SceneOp::Fill { .. }));
    assert!(matches!(scene.ops[1], SceneOp::Stroke { .. }));
    match &scene.ops[2] {
        SceneOp::Stroke { path, .. } => assert_eq!(path.els.len(), 0),
        other => panic!("expected a stroke, got {:?}", other),
    }
}
