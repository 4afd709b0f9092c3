//! Glyph shaping: walking the glyph ids of a TJ show-text operand, mapping
//! each outline through the text matrix, and emitting it as a filled path.

pub mod font;

use vstd::prelude::*;
use crate::ctm::{ctm_identity, transform_from, transform_v, Coord, DeviceScale, CTM};
use crate::error::Error;
use crate::fx::{fx_add, fx_add_v, fx_div, fx_div_v, fx_mul, fx_mul_v, fx_sub_v, FX_ONE};
use crate::object::Obj;
use crate::scene::{count_fills, lemma_count_fills_add, lemma_count_fills_one, BezPath, Color,
    FillRule, PathEl, Scene, SceneOpV};
use crate::state::{GraphicsState, GsV, TsV};
use crate::text::font::{glyphs_v, FontV, GlyphSeg};
use crate::RenderSettings;

verus! {

/// Pen advances are counted in 1/1000 em: one em is a thousand of them.
pub const TEXT_SCALE: i64 = 1000 * FX_ONE;

/// A glyph-outline point mapped to device space: em units to text units by
/// the em size, shifted right by the accumulated pen advance, then through
/// the text matrix and the device scale.
pub open spec fn tx_v(
    upem: u16,
    position: i64,
    size: i64,
    matrix: CTM,
    scale: DeviceScale,
    p: Coord,
) -> Coord {
    let upem_fx = (upem as int * FX_ONE as int) as i64;
    let lx = fx_add_v(
        fx_mul_v(fx_div_v(p.x as int, upem_fx as int), size as int),
        fx_mul_v(fx_div_v(position as int, TEXT_SCALE as int), size as int),
    ) as i64;
    let ly = fx_mul_v(fx_div_v(p.y as int, upem_fx as int), size as int) as i64;
    transform_v(Coord { x: lx, y: ly }, matrix, scale)
}

/// One outline segment mapped to a path element in device space.
pub open spec fn seg_to_el(
    upem: u16,
    position: i64,
    size: i64,
    matrix: CTM,
    scale: DeviceScale,
    seg: GlyphSeg,
) -> PathEl {
    match seg {
        GlyphSeg::MoveTo(p) => PathEl::MoveTo(tx_v(upem, position, size, matrix, scale, p)),
        GlyphSeg::LineTo(p) => PathEl::LineTo(tx_v(upem, position, size, matrix, scale, p)),
        GlyphSeg::QuadTo(p1, p2) => PathEl::QuadTo(
            tx_v(upem, position, size, matrix, scale, p1),
            tx_v(upem, position, size, matrix, scale, p2),
        ),
        GlyphSeg::CurveTo(p1, p2, p3) => PathEl::CurveTo(
            tx_v(upem, position, size, matrix, scale, p1),
            tx_v(upem, position, size, matrix, scale, p2),
            tx_v(upem, position, size, matrix, scale, p3),
        ),
        GlyphSeg::Close => PathEl::ClosePath,
    }
}

/// A whole outline mapped to device space, segment for segment.
pub open spec fn glyph_path_v(
    segs: Seq<GlyphSeg>,
    upem: u16,
    position: i64,
    size: i64,
    matrix: CTM,
    scale: DeviceScale,
) -> Seq<PathEl> {
    segs.map_values(|seg: GlyphSeg| seg_to_el(upem, position, size, matrix, scale, seg))
}

/// The advance width of a glyph id: entries past the table's end are 0.
pub open spec fn glyph_width(f: FontV, gid: u16) -> i64 {
    if (gid as int) < f.widths.len() {
        f.widths[gid as int]
    } else {
        0i64
    }
}

/// The outline of a glyph id, if the font has one for it.
pub open spec fn glyph_outline(f: FontV, gid: u16) -> Option<Seq<GlyphSeg>> {
    if (gid as int) < f.glyphs.len() {
        f.glyphs[gid as int]
    } else {
        None
    }
}

/// Showing one glyph: if it has an outline, one even-odd fill of that
/// outline is emitted; either way the pen advances by the glyph's width,
/// after the emission.
pub open spec fn tj_glyph(f: FontV, ts: TsV, color: Color, scale: DeviceScale, gid: u16) -> (
    TsV,
    Seq<SceneOpV>,
) {
    let emit = match glyph_outline(f, gid) {
        Some(segs) => seq![
            SceneOpV::Fill {
                rule: FillRule::EvenOdd,
                affine: ctm_identity(),
                color,
                path: glyph_path_v(
                    segs,
                    f.units_per_em,
                    ts.position,
                    ts.size,
                    ts.matrix,
                    scale,
                ),
            },
        ],
        None => Seq::<SceneOpV>::empty(),
    };
    (
        TsV {
            position: fx_add_v(ts.position as int, glyph_width(f, gid) as int) as i64,
            ..ts
        },
        emit,
    )
}

/// Showing a byte string: each big-endian byte pair is a glyph id; a
/// trailing odd byte is dropped.
pub open spec fn tj_string(
    f: FontV,
    ts: TsV,
    color: Color,
    scale: DeviceScale,
    bytes: Seq<u8>,
) -> (TsV, Seq<SceneOpV>)
    decreases bytes.len(),
{
    if bytes.len() < 2 {
        (ts, Seq::<SceneOpV>::empty())
    } else {
        let gid = (bytes[0] as int * 256 + bytes[1] as int) as u16;
        let (ts1, e1) = tj_glyph(f, ts, color, scale, gid);
        let (ts2, e2) = tj_string(f, ts1, color, scale, bytes.skip(2));
        (ts2, e1 + e2)
    }
}

/// Walking a TJ array: a byte string shows glyphs, a number pulls the pen
/// back by that many 1/1000 em, and any other element is passed over.
pub open spec fn tj_elems(
    f: FontV,
    ts: TsV,
    color: Color,
    scale: DeviceScale,
    elems: Seq<Obj>,
) -> (TsV, Seq<SceneOpV>)
    decreases elems.len(),
{
    if elems.len() == 0 {
        (ts, Seq::<SceneOpV>::empty())
    } else {
        let (ts1, e1) = tj_elem(f, ts, color, scale, elems[0]);
        let (ts2, e2) = tj_elems(f, ts1, color, scale, elems.drop_first());
        (ts2, e1 + e2)
    }
}

/// One element of a TJ array.
pub open spec fn tj_elem(f: FontV, ts: TsV, color: Color, scale: DeviceScale, elem: Obj) -> (
    TsV,
    Seq<SceneOpV>,
) {
    match elem {
        Obj::Str(bytes) => tj_string(f, ts, color, scale, bytes@),
        _ => {
            match elem.spec_fx() {
                Some(v) => (
                    TsV { position: fx_sub_v(ts.position as int, v) as i64, ..ts },
                    Seq::<SceneOpV>::empty(),
                ),
                None => (ts, Seq::<SceneOpV>::empty()),
            }
        },
    }
}

/// The summed advance widths of the glyph ids a TJ byte string holds.
pub open spec fn widths_sum(f: FontV, bytes: Seq<u8>) -> int
    decreases bytes.len(),
{
    if bytes.len() < 2 {
        0
    } else {
        glyph_width(f, (bytes[0] as int * 256 + bytes[1] as int) as u16) + widths_sum(
            f,
            bytes.skip(2),
        )
    }
}

/// Every partial advance over the byte string stays within `i64`, so no
/// saturation rounds the pen position.
pub open spec fn advance_in_range(f: FontV, position: int, bytes: Seq<u8>) -> bool
    decreases bytes.len(),
{
    if bytes.len() < 2 {
        true
    } else {
        let p2 = position + glyph_width(f, (bytes[0] as int * 256 + bytes[1] as int) as u16);
        &&& i64::MIN <= p2 <= i64::MAX
        &&& advance_in_range(f, p2, bytes.skip(2))
    }
}

/// Showing a byte string of length 2k advances the pen by exactly the sum
/// of the k glyphs' widths, as long as no partial sum leaves the `i64`
/// range.
pub proof fn lemma_tj_advance(
    f: FontV,
    ts: TsV,
    color: Color,
    scale: DeviceScale,
    bytes: Seq<u8>,
)
    requires
        advance_in_range(f, ts.position as int, bytes),
    ensures
        tj_string(f, ts, color, scale, bytes).0.position == ts.position + widths_sum(f, bytes),
    decreases bytes.len(),
{
    if bytes.len() < 2 {
    } else {
        let gid = (bytes[0] as int * 256 + bytes[1] as int) as u16;
        let (ts1, _e1) = tj_glyph(f, ts, color, scale, gid);
        lemma_tj_advance(f, ts1, color, scale, bytes.skip(2));
    }
}

/// How many glyphs with an outline a TJ byte string shows.
pub open spec fn tj_string_outlined(f: FontV, bytes: Seq<u8>) -> int
    decreases bytes.len(),
{
    if bytes.len() < 2 {
        0
    } else {
        (if glyph_outline(f, (bytes[0] as int * 256 + bytes[1] as int) as u16) is Some {
            1int
        } else {
            0int
        }) + tj_string_outlined(f, bytes.skip(2))
    }
}

/// How many glyphs with an outline a whole TJ array shows.
pub open spec fn tj_elems_outlined(f: FontV, elems: Seq<Obj>) -> int
    decreases elems.len(),
{
    if elems.len() == 0 {
        0
    } else {
        (match elems[0] {
            Obj::Str(bytes) => tj_string_outlined(f, bytes@),
            _ => 0int,
        }) + tj_elems_outlined(f, elems.drop_first())
    }
}

/// Showing a byte string emits exactly one fill per glyph with an outline.
pub proof fn lemma_tj_string_fills(
    f: FontV,
    ts: TsV,
    color: Color,
    scale: DeviceScale,
    bytes: Seq<u8>,
)
    ensures
        count_fills(tj_string(f, ts, color, scale, bytes).1) == tj_string_outlined(f, bytes),
        tj_string_outlined(f, bytes) >= 0,
    decreases bytes.len(),
{
    if bytes.len() < 2 {
    } else {
        let gid = (bytes[0] as int * 256 + bytes[1] as int) as u16;
        let (ts1, e1) = tj_glyph(f, ts, color, scale, gid);
        let (_ts2, e2) = tj_string(f, ts1, color, scale, bytes.skip(2));
        lemma_tj_string_fills(f, ts1, color, scale, bytes.skip(2));
        lemma_count_fills_add(e1, e2);
        match glyph_outline(f, gid) {
            Some(_) => {
                lemma_count_fills_one(e1[0]);
                assert(e1 =~= seq![e1[0]]);
            },
            None => {},
        }
    }
}

/// Walking a TJ array emits exactly one fill per glyph with an outline.
pub proof fn lemma_tj_elems_fills(
    f: FontV,
    ts: TsV,
    color: Color,
    scale: DeviceScale,
    elems: Seq<Obj>,
)
    ensures
        count_fills(tj_elems(f, ts, color, scale, elems).1) == tj_elems_outlined(f, elems),
        tj_elems_outlined(f, elems) >= 0,
    decreases elems.len(),
{
    if elems.len() == 0 {
    } else {
        let (ts1, e1) = tj_elem(f, ts, color, scale, elems[0]);
        let (_ts2, e2) = tj_elems(f, ts1, color, scale, elems.drop_first());
        lemma_tj_elems_fills(f, ts1, color, scale, elems.drop_first());
        lemma_count_fills_add(e1, e2);
        match elems[0] {
            Obj::Str(bytes) => {
                lemma_tj_string_fills(f, ts, color, scale, bytes@);
            },
            _ => {},
        }
    }
}

/// Map one glyph-outline point to device space; see [`tx_v`].
fn tx(upem: u16, position: i64, size: i64, matrix: &CTM, scale: &DeviceScale, p: Coord) -> (r:
    Coord)
    ensures
        r == tx_v(upem, position, size, *matrix, *scale, p),
{
    let upem_fx: i64 = (upem as i64) * FX_ONE;
    let lx: i64 = fx_add(
        fx_mul(fx_div(p.x, upem_fx), size),
        fx_mul(fx_div(position, TEXT_SCALE), size),
    );
    let ly: i64 = fx_mul(fx_div(p.y, upem_fx), size);
    transform_from(&Coord { x: lx, y: ly }, matrix, scale)
}

/// Walk one glyph outline into a device-space path; see [`glyph_path_v`].
fn glyph_to_path(
    segs: &Vec<GlyphSeg>,
    upem: u16,
    position: i64,
    size: i64,
    matrix: &CTM,
    scale: &DeviceScale,
) -> (r: BezPath)
    ensures
        r@ == glyph_path_v(segs@, upem, position, size, *matrix, *scale),
{
    let mut path = BezPath::new();
    let mut i: usize = 0;
    while i < segs.len()
        invariant
            i <= segs.len(),
            path@.len() == i as int,
            forall|j: int|
                0 <= j < i as int ==> path@[j] == seg_to_el(
                    upem,
                    position,
                    size,
                    *matrix,
                    *scale,
                    segs@[j],
                ),
        decreases segs.len() - i,
    {
        match segs[i] {
            GlyphSeg::MoveTo(p) => path.move_to(tx(upem, position, size, matrix, scale, p)),
            GlyphSeg::LineTo(p) => path.line_to(tx(upem, position, size, matrix, scale, p)),
            GlyphSeg::QuadTo(p1, p2) => path.quad_to(
                tx(upem, position, size, matrix, scale, p1),
                tx(upem, position, size, matrix, scale, p2),
            ),
            GlyphSeg::CurveTo(p1, p2, p3) => path.curve_to(
                tx(upem, position, size, matrix, scale, p1),
                tx(upem, position, size, matrix, scale, p2),
                tx(upem, position, size, matrix, scale, p3),
            ),
            GlyphSeg::Close => path.close_path(),
        }
        i = i + 1;
    }
    proof {
        assert forall|j: int| 0 <= j < segs@.len() implies path@[j] == glyph_path_v(
            segs@,
            upem,
            position,
            size,
            *matrix,
            *scale,
        )[j] by {}
        assert(path@ =~= glyph_path_v(segs@, upem, position, size, *matrix, *scale));
    }
    path
}

/// Show the glyphs of a TJ operand: walk its elements over the current text
/// state, fill each outlined glyph with the non-stroke colour, and advance
/// the pen. Fails with `MissingTextState` outside a text object or before
/// any font was selected, leaving everything unchanged.
pub fn draw_text(
    scale: &DeviceScale,
    scene: &mut Scene,
    gs: &mut GraphicsState,
    glyphs: &Vec<Obj>,
    _render_settings: &RenderSettings,
) -> (r: Result<(), Error>)
    ensures
        ({
            let gv = old(gs)@;
            match r {
                Ok(()) => gv.text_state matches Some(ts0) && ts0.font matches Some(f) && {
                    let (ts2, emit) = tj_elems(f, ts0, gv.non_stroke_color, *scale, glyphs@);
                    &&& final(gs)@ == (GsV { text_state: Some(ts2), ..gv })
                    &&& final(scene)@ == old(scene)@ + emit
                },
                Err(e) => {
                    &&& e == Error::MissingTextState
                    &&& (gv.text_state is None || gv.text_state->Some_0.font is None)
                    &&& final(gs)@ == gv
                    &&& final(scene)@ == old(scene)@
                },
            }
        }),
{
    let (position0, size, matrix, font): (i64, i64, CTM, crate::text::font::Font) = match &gs
        .text_state {
        Some(ts) => match &ts.font {
            Some(f) => (ts.position, ts.size, ts.matrix, f.duplicate()),
            None => {
                return Err(Error::MissingTextState);
            },
        },
        None => {
            return Err(Error::MissingTextState);
        },
    };
    let color = gs.non_stroke_color;
    let ghost fv: FontV = font@;
    let ghost ts0: TsV = old(gs)@.text_state->Some_0;
    let ghost scene0: Seq<SceneOpV> = scene@;
    let ghost full: (TsV, Seq<SceneOpV>) = tj_elems(fv, ts0, color, *scale, glyphs@);
    let mut position: i64 = position0;
    let mut i: usize = 0;
    proof {
        assert(glyphs@.skip(0) =~= glyphs@);
        assert(scene0 + Seq::<SceneOpV>::empty() =~= scene0);
    }
    while i < glyphs.len()
        invariant
            i <= glyphs.len(),
            ts0.size == size && ts0.matrix == matrix && ts0.font == Some(fv),
            fv == font@,
            full == tj_elems(fv, ts0, color, *scale, glyphs@),
            scene0.len() <= scene@.len(),
            scene@.subrange(0, scene0.len() as int) == scene0,
            ({
                let cur = TsV { position, size, matrix, font: Some(fv) };
                let rem = tj_elems(fv, cur, color, *scale, glyphs@.skip(i as int));
                full.0 == rem.0 && full.1 == scene@.skip(scene0.len() as int) + rem.1
            }),
        decreases glyphs.len() - i,
    {
        let ghost cur = TsV { position, size, matrix, font: Some(fv) };
        proof {
            assert(glyphs@.skip(i as int).drop_first() =~= glyphs@.skip(i as int + 1));
            assert(glyphs@.skip(i as int)[0] == glyphs@[i as int]);
        }
        match &glyphs[i] {
            Obj::Str(bytes) => {
                let ghost sfull: (TsV, Seq<SceneOpV>) = tj_string(
                    fv,
                    cur,
                    color,
                    *scale,
                    bytes@,
                );
                let ghost scene1: Seq<SceneOpV> = scene@;
                let mut k: usize = 0;
                proof {
                    assert(bytes@.skip(0) =~= bytes@);
                    assert(scene1 + Seq::<SceneOpV>::empty() =~= scene1);
                }
                while k < bytes.len() && k + 1 < bytes.len()
                    invariant
                        k <= bytes.len(),
                        ts0.size == size && ts0.matrix == matrix,
                        fv == font@,
                        scene1.len() <= scene@.len(),
                        scene@.subrange(0, scene1.len() as int) == scene1,
                        sfull == tj_string(fv, cur, color, *scale, bytes@),
                        ({
                            let snow = TsV { position, size, matrix, font: Some(fv) };
                            let srem = tj_string(fv, snow, color, *scale, bytes@.skip(k as int));
                            sfull.0 == srem.0 && sfull.1 == scene@.skip(scene1.len() as int)
                                + srem.1
                        }),
                    decreases bytes.len() - k,
                {
                    let ghost snow = TsV { position, size, matrix, font: Some(fv) };
                    let ghost scene_it: Seq<SceneOpV> = scene@;
                    proof {
                        assert(bytes@.skip(k as int).skip(2) =~= bytes@.skip(k as int + 2));
                        assert(bytes@.skip(k as int)[0] == bytes@[k as int]);
                        assert(bytes@.skip(k as int)[1] == bytes@[k as int + 1]);
                    }
                    let gid: u16 = (bytes[k] as u16) * 256 + (bytes[k + 1] as u16);
                    let width: i64 = if (gid as usize) < font.widths.len() {
                        font.widths[gid as usize]
                    } else {
                        0
                    };
                    if (gid as usize) < font.glyphs.len() {
                        match &font.glyphs[gid as usize] {
                            Some(segs) => {
                                proof {
                                    assert(glyphs_v(font.glyphs@)[gid as int] == Some(segs@));
                                    assert(glyph_outline(fv, gid) == Some(segs@));
                                }
                                let path = glyph_to_path(
                                    segs,
                                    font.units_per_em,
                                    position,
                                    size,
                                    &matrix,
                                    scale,
                                );
                                scene.fill(FillRule::EvenOdd, CTM::default(), color, &path);
                            },
                            None => {
                                proof {
                                    assert(glyphs_v(font.glyphs@)[gid as int] is None);
                                    assert(glyph_outline(fv, gid) is None);
                                }
                            },
                        }
                    }
                    position = fx_add(position, width);
                    proof {
                        let snext = TsV { position, size, matrix, font: Some(fv) };
                        let (gts, gemit) = tj_glyph(fv, snow, color, *scale, gid);
                        assert(width == glyph_width(fv, gid));
                        assert(gts == snext);
                        assert(scene@.skip(scene1.len() as int) =~= scene_it.skip(
                            scene1.len() as int,
                        ) + gemit);
                        let srem_old = tj_string(fv, snow, color, *scale, bytes@.skip(k as int));
                        let srem_new = tj_string(
                            fv,
                            snext,
                            color,
                            *scale,
                            bytes@.skip(k as int + 2),
                        );
                        assert(srem_old.0 == srem_new.0 && srem_old.1 == gemit + srem_new.1);
                        assert(sfull.1 =~= scene@.skip(scene1.len() as int) + srem_new.1);
                    }
                    k = k + 2;
                }
                proof {
                    assert(tj_string(
                        fv,
                        TsV { position, size, matrix, font: Some(fv) },
                        color,
                        *scale,
                        bytes@.skip(k as int),
                    ).1 =~= Seq::<SceneOpV>::empty());
                    assert(sfull.1 =~= scene@.skip(scene1.len() as int));
                }
            },
            other => {
                match other.as_fx() {
                    Ok(v) => {
                        position = crate::fx::fx_sub(position, v);
                    },
                    Err(_) => {},
                }
            },
        }
        proof {
            let next = TsV { position, size, matrix, font: Some(fv) };
            let rem_new = tj_elems(fv, next, color, *scale, glyphs@.skip(i as int + 1));
            assert(full.0 == rem_new.0 && full.1 =~= scene@.skip(scene0.len() as int)
                + rem_new.1);
        }
        i = i + 1;
    }
    proof {
        assert(glyphs@.skip(glyphs@.len() as int) =~= Seq::<Obj>::empty());
        assert(full.1 =~= scene@.skip(scene0.len() as int));
        assert(scene@ =~= scene0 + full.1);
    }
    match &mut gs.text_state {
        Some(ts) => {
            ts.position = position;
        },
        None => {},
    }
    proof {
        assert(final(gs)@ =~= (GsV { text_state: Some(full.0), ..old(gs)@ }));
    }
    Ok(())
}

} // verus!
