//! A verified PDF content-stream interpreter.
//!
//! The crate walks the operators of a PDF page's content stream, maintains
//! the graphics state (current transformation matrix, colours, path, text
//! state, save stack) and emits device-space fill and stroke commands into a
//! [`scene::Scene`]. All geometry is exact saturating fixed-point arithmetic
//! over micro-units (see [`fx`]); a thin unverified front end converts the
//! numbers of a parsed PDF document into this representation and hands the
//! emitted scene to a renderer.

use vstd::prelude::*;

pub mod ctm;
pub mod error;
pub mod fx;
pub mod interp;
pub mod object;
pub mod pixels;
pub mod scene;
pub mod state;
pub mod text;

verus! {

/// Rendering options handed through to the scene consumer.
#[derive(Debug, Clone, Copy)]
pub struct RenderSettings {
    pub anti_alias: bool,
}

impl Default for RenderSettings {
    fn default() -> (r: RenderSettings)
        ensures
            r.anti_alias == true,
    {
        RenderSettings { anti_alias: true }
    }
}

pub use crate::ctm::concat;
pub use crate::ctm::transform_from;
pub use crate::ctm::Coord;
pub use crate::ctm::DeviceScale;
pub use crate::ctm::TextMatrix;
pub use crate::ctm::CTM;
pub use crate::text::font::Font;

use crate::ctm::ctm_identity;
use crate::error::Error;
use crate::fx::{fx_div, fx_div_v, fx_of_int_v, fx_of_u32};
use crate::interp::{run_ops, run_v, AlphaOverrides, Env, EnvV};
use crate::object::{entries_get, objects_get, table_get, Dict, Document, Obj, Op};
use crate::scene::{Scene, SceneOpV};
use crate::state::{state_default_v, State};
use crate::text::font::FontV;

/// The page's size in PDF points, read from its MediaBox `[x0 y0 w h]`;
/// the two offsets are ignored. Anything else is `BadMediaBox`.
pub open spec fn spec_dimensions(page: Dict) -> Result<(i64, i64), Error> {
    match entries_get(page.entries@, "MediaBox"@) {
        Some(Obj::Array(a)) => {
            if a@.len() == 4 {
                match (a@[2].spec_fx(), a@[3].spec_fx()) {
                    (Some(w), Some(h)) => Ok((w as i64, h as i64)),
                    _ => Err(Error::BadMediaBox),
                }
            } else {
                Err(Error::BadMediaBox)
            }
        },
        _ => Err(Error::BadMediaBox),
    }
}

/// Read a page's width and height in points from its MediaBox.
pub fn dimensions(page: &Dict) -> (r: Result<(i64, i64), Error>)
    ensures
        r == spec_dimensions(*page),
{
    let a: &Vec<Obj> = match page.get("MediaBox") {
        Some(Obj::Array(a)) => a,
        _ => {
            return Err(Error::BadMediaBox);
        },
    };
    if a.len() != 4 {
        return Err(Error::BadMediaBox);
    }
    let w = match a[2].as_fx() {
        Ok(v) => v,
        Err(_) => {
            return Err(Error::BadMediaBox);
        },
    };
    let h = match a[3].as_fx() {
        Ok(v) => v,
        Err(_) => {
            return Err(Error::BadMediaBox);
        },
    };
    Ok((w, h))
}

/// The alpha overrides an ExtGState dictionary carries: a non-numeric or
/// missing `ca` or `CA` leaves that colour's alpha alone.
pub open spec fn spec_alphas(d: Dict) -> AlphaOverrides {
    AlphaOverrides {
        fill_alpha: match entries_get(d.entries@, "ca"@) {
            Some(o) => match o.spec_fx() {
                Some(v) => Some(v as i64),
                None => None,
            },
            None => None,
        },
        stroke_alpha: match entries_get(d.entries@, "CA"@) {
            Some(o) => match o.spec_fx() {
                Some(v) => Some(v as i64),
                None => None,
            },
            None => None,
        },
    }
}

/// The extended-graphics-state map built from an ExtGState dictionary's
/// entries: each entry must reference a dictionary, anything else is
/// dropped.
pub open spec fn spec_ext_entries(
    objects: Seq<(crate::object::ObjId, Obj)>,
    entries: Seq<(String, Obj)>,
) -> Seq<(Seq<char>, AlphaOverrides)>
    decreases entries.len(),
{
    if entries.len() == 0 {
        Seq::<(Seq<char>, AlphaOverrides)>::empty()
    } else {
        let rest = spec_ext_entries(objects, entries.drop_first());
        match entries[0].1 {
            Obj::Reference(id) => match objects_get(objects, id) {
                Some(Obj::Dict(d)) => seq![(entries[0].0@, spec_alphas(d))] + rest,
                _ => rest,
            },
            _ => rest,
        }
    }
}

/// The page's extended-graphics-state map: Resources (directly or by
/// reference) then its ExtGState dictionary; missing or malformed parts
/// give the empty map.
pub open spec fn spec_ext_map(
    objects: Seq<(crate::object::ObjId, Obj)>,
    page_dict: Dict,
) -> Seq<(Seq<char>, AlphaOverrides)> {
    let resources = match entries_get(page_dict.entries@, "Resources"@) {
        Some(Obj::Dict(d)) => Some(d),
        Some(Obj::Reference(id)) => match objects_get(objects, id) {
            Some(Obj::Dict(d)) => Some(d),
            _ => None,
        },
        _ => None,
    };
    match resources {
        Some(res) => match entries_get(res.entries@, "ExtGState"@) {
            Some(Obj::Dict(eg)) => spec_ext_entries(objects, eg.entries@),
            _ => Seq::<(Seq<char>, AlphaOverrides)>::empty(),
        },
        None => Seq::<(Seq<char>, AlphaOverrides)>::empty(),
    }
}

/// Build the extended-graphics-state map of a page.
fn build_ext_map(doc: &Document, page_dict: &Dict) -> (r: Vec<(String, AlphaOverrides)>)
    ensures
        r@.map_values(|p: (String, AlphaOverrides)| (p.0@, p.1)) == spec_ext_map(
            doc.objects@,
            *page_dict,
        ),
{
    let empty: Vec<(String, AlphaOverrides)> = Vec::new();
    proof {
        assert(empty@.map_values(|p: (String, AlphaOverrides)| (p.0@, p.1)) =~= Seq::<
            (Seq<char>, AlphaOverrides),
        >::empty());
    }
    let resources: &Dict = match page_dict.get("Resources") {
        Some(Obj::Dict(d)) => d,
        Some(Obj::Reference(id)) => match doc.get_dictionary((id.0, id.1)) {
            Some(d) => d,
            None => {
                return empty;
            },
        },
        _ => {
            return empty;
        },
    };
    let eg: &Dict = match resources.get("ExtGState") {
        Some(Obj::Dict(d)) => d,
        _ => {
            return empty;
        },
    };
    let mut out: Vec<(String, AlphaOverrides)> = Vec::new();
    let mut i: usize = 0;
    proof {
        assert(eg.entries@.skip(0) =~= eg.entries@);
    }
    while i < eg.entries.len()
        invariant
            i <= eg.entries.len(),
            spec_ext_entries(doc.objects@, eg.entries@) =~= out@.map_values(
                |p: (String, AlphaOverrides)| (p.0@, p.1),
            ) + spec_ext_entries(doc.objects@, eg.entries@.skip(i as int)),
        decreases eg.entries.len() - i,
    {
        proof {
            assert(eg.entries@.skip(i as int).drop_first() =~= eg.entries@.skip(i as int + 1));
            assert(eg.entries@.skip(i as int)[0] == eg.entries@[i as int]);
        }
        let ghost out_pre = out@;
        match &eg.entries[i].1 {
            Obj::Reference(id) => {
                match doc.get_dictionary((id.0, id.1)) {
                    Some(d) => {
                        let fill_alpha: Option<i64> = match d.get("ca") {
                            Some(o) => match o.as_fx() {
                                Ok(v) => Some(v),
                                Err(_) => None,
                            },
                            None => None,
                        };
                        let stroke_alpha: Option<i64> = match d.get("CA") {
                            Some(o) => match o.as_fx() {
                                Ok(v) => Some(v),
                                Err(_) => None,
                            },
                            None => None,
                        };
                        let al = AlphaOverrides { fill_alpha, stroke_alpha };
                        proof {
                            assert(al == spec_alphas(*d));
                        }
                        out.push((eg.entries[i].0.clone(), al));
                        proof {
                            let f = |p: (String, AlphaOverrides)| (p.0@, p.1);
                            assert(out@.map_values(f) =~= out_pre.map_values(f) + seq![
                                (eg.entries@[i as int].0@, al),
                            ]);
                            assert(spec_ext_entries(doc.objects@, eg.entries@)
                                =~= out@.map_values(f) + spec_ext_entries(
                                doc.objects@,
                                eg.entries@.skip(i as int + 1),
                            ));
                        }
                    },
                    None => {},
                }
            },
            _ => {},
        }
        i = i + 1;
    }
    proof {
        assert(eg.entries@.skip(eg.entries@.len() as int) =~= Seq::<(String, Obj)>::empty());
        assert(spec_ext_entries(doc.objects@, eg.entries@) =~= out@.map_values(
            |p: (String, AlphaOverrides)| (p.0@, p.1),
        ));
    }
    out
}

/// What the driver resolves before the interpreter runs: the device scale,
/// the extended-graphics-state map, and the page's operation sequence.
#[verifier::ext_equal]
pub ghost struct PageCtxV {
    pub scale: DeviceScale,
    pub ext_gstate: Seq<(Seq<char>, AlphaOverrides)>,
    pub ops: Seq<Op>,
}

/// Resolve a page: its dictionary, its MediaBox, the device scale
/// (`width / page width`, flipping about `height`), the extended graphics
/// states, and the decoded content stream.
pub open spec fn spec_page_ctx(doc: Document, width: u32, height: u32, page: u32) -> Result<
    PageCtxV,
    Error,
> {
    match table_get(doc.pages@, page) {
        None => Err(Error::MissingPage),
        Some(pid) => match objects_get(doc.objects@, pid) {
            Some(Obj::Dict(pd)) => match spec_dimensions(pd) {
                Err(e) => Err(e),
                Ok((w, _h)) => {
                    let scale = DeviceScale {
                        height,
                        scale: fx_div_v(fx_of_int_v(width as int), w as int) as i64,
                    };
                    match table_get(doc.page_contents@, page) {
                        None => Err(Error::MissingPage),
                        Some(ops) => Ok(
                            PageCtxV {
                                scale,
                                ext_gstate: spec_ext_map(doc.objects@, pd),
                                ops: ops@,
                            },
                        ),
                    }
                },
            },
            _ => Err(Error::MissingPage),
        },
    }
}

/// Render one page of the document into the scene: resolve the page and its
/// resources, then interpret its content stream from the default graphics
/// state. The fonts are the page's font map, as
/// [`crate::text::font::assemble_font_map`] builds it. On an error the
/// scene keeps what was emitted before the failing operation; the caller
/// discards it.
pub fn draw_doc(
    doc: &Document,
    scene: &mut Scene,
    width: u32,
    height: u32,
    page: u32,
    settings: &RenderSettings,
    fonts: Vec<(String, Font)>,
) -> (r: Result<(), Error>)
    ensures
        ({
            match spec_page_ctx(*doc, width, height, page) {
                Err(e) => r == Err::<(), Error>(e) && final(scene)@ == old(scene)@,
                Ok(ctx) => {
                    let env = EnvV {
                        fonts: fonts@.map_values(|p: (String, Font)| (p.0@, p.1@)),
                        ext_gstate: ctx.ext_gstate,
                        scale: ctx.scale,
                    };
                    let rr = run_v(env, state_default_v(), ctx.ops);
                    &&& final(scene)@ == old(scene)@ + rr.emit
                    &&& match r {
                        Ok(()) => rr.err is None,
                        Err(e) => rr.err == Some(e),
                    }
                },
            }
        }),
{
    let page_id = match doc.page_id(page) {
        Some(id) => id,
        None => {
            return Err(Error::MissingPage);
        },
    };
    let page_dict: &Dict = match doc.get_dictionary(page_id) {
        Some(d) => d,
        None => {
            return Err(Error::MissingPage);
        },
    };
    let size: (i64, i64) = dimensions(page_dict)?;
    let scale = DeviceScale { height, scale: fx_div(fx_of_u32(width), size.0) };
    let ext_gstate = build_ext_map(doc, page_dict);
    let ops: &Vec<Op> = match doc.page_content_of(page) {
        Some(v) => v,
        None => {
            return Err(Error::MissingPage);
        },
    };
    let env = Env { fonts, ext_gstate, scale };
    let mut state = State::default();
    run_ops(&env, &mut state, scene, ops, settings)
}

} // verus!
