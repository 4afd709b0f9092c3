//! Loading an embedded CID font: dictionary validation, advance widths, and
//! the data model of a parsed TrueType face.
//!
//! The TrueType program itself is parsed outside the library (the parser's
//! interface speaks in floats); the loader here validates the font
//! dictionary, extracts the widths, the name and the embedded program, and a
//! [`FaceData`] with the parsed outlines is handed back to assemble a
//! [`Font`].

use vstd::prelude::*;
use crate::ctm::Coord;
use crate::error::Error;
use crate::object::{copy_vec, entries_get, objects_get, Dict, Document, Obj, ObjId, FromPDF};

verus! {

/// One segment of a glyph outline, in the font's em grid, micro-units.
#[derive(Debug, Clone, Copy, PartialEq, Eq, Structural)]
pub enum GlyphSeg {
    MoveTo(Coord),
    LineTo(Coord),
    QuadTo(Coord, Coord),
    CurveTo(Coord, Coord, Coord),
    Close,
}

/// What the TrueType parser answers: the em size and, for each glyph id,
/// its outline, or nothing where the glyph has none.
#[derive(Debug)]
pub struct FaceData {
    pub units_per_em: u16,
    pub glyphs: Vec<Option<Vec<GlyphSeg>>>,
}

/// What the font loader reads out of the font dictionary: the name, the
/// advance widths (micro-units of 1/1000 em, indexed by glyph id) and the
/// decompressed embedded TrueType program.
#[derive(Debug)]
pub struct FontSource {
    pub name: String,
    pub widths: Vec<i64>,
    pub font_file: Vec<u8>,
}

/// The spec-level value of a [`FontSource`].
#[verifier::ext_equal]
pub ghost struct FontSrcV {
    pub name: Seq<char>,
    pub widths: Seq<i64>,
    pub font_file: Seq<u8>,
}

impl View for FontSource {
    type V = FontSrcV;

    open spec fn view(&self) -> FontSrcV {
        FontSrcV { name: self.name@, widths: self.widths@, font_file: self.font_file@ }
    }
}

/// A loaded font: immutable once assembled.
#[derive(Debug)]
pub struct Font {
    pub name: String,
    pub units_per_em: u16,
    /// Advance width of each glyph id, micro-units of 1/1000 em; glyph ids
    /// past the end have width 0.
    pub widths: Vec<i64>,
    /// Outline of each glyph id; `None` where the glyph has no outline.
    pub glyphs: Vec<Option<Vec<GlyphSeg>>>,
}

/// The spec-level value of a [`Font`].
#[verifier::ext_equal]
pub ghost struct FontV {
    pub name: Seq<char>,
    pub units_per_em: u16,
    pub widths: Seq<i64>,
    pub glyphs: Seq<Option<Seq<GlyphSeg>>>,
}

/// The outlines of `g`, element for element, as sequences.
pub open spec fn glyphs_v(g: Seq<Option<Vec<GlyphSeg>>>) -> Seq<Option<Seq<GlyphSeg>>> {
    g.map_values(
        |o: Option<Vec<GlyphSeg>>|
            match o {
                Some(v) => Some(v@),
                None => None,
            },
    )
}

impl View for Font {
    type V = FontV;

    open spec fn view(&self) -> FontV {
        FontV {
            name: self.name@,
            units_per_em: self.units_per_em,
            widths: self.widths@,
            glyphs: glyphs_v(self.glyphs@),
        }
    }
}

impl Font {
    /// Assemble a font from the loader's dictionary data and the parsed face.
    pub fn assemble(name: String, widths: Vec<i64>, face: FaceData) -> (r: Font)
        ensures
            r@ == (FontV {
                name: name@,
                units_per_em: face.units_per_em,
                widths: widths@,
                glyphs: glyphs_v(face.glyphs@),
            }),
    {
        Font { name, units_per_em: face.units_per_em, widths, glyphs: face.glyphs }
    }

    /// A value-equal copy of this font.
    pub fn duplicate(&self) -> (r: Font)
        ensures
            r@ == self@,
    {
        let r = Font {
            name: self.name.clone(),
            units_per_em: self.units_per_em,
            widths: copy_vec(&self.widths),
            glyphs: copy_glyphs(&self.glyphs),
        };
        proof {
            assert(r@ =~= self@);
        }
        r
    }
}

/// An outline-for-outline copy of a glyph table.
fn copy_glyphs(src: &Vec<Option<Vec<GlyphSeg>>>) -> (r: Vec<Option<Vec<GlyphSeg>>>)
    ensures
        glyphs_v(r@) == glyphs_v(src@),
{
    let mut glyphs: Vec<Option<Vec<GlyphSeg>>> = Vec::new();
    let mut i: usize = 0;
    while i < src.len()
        invariant
            i <= src.len(),
            glyphs@.len() == i as int,
            forall|j: int|
                0 <= j < i as int ==> #[trigger] glyph_copied(glyphs@[j], src@[j]),
        decreases src.len() - i,
    {
        let g: Option<Vec<GlyphSeg>> = match &src[i] {
            Some(v) => Some(copy_vec(v)),
            None => None,
        };
        proof {
            assert(glyph_copied(g, src@[i as int]));
        }
        glyphs.push(g);
        i = i + 1;
    }
    proof {
        assert forall|j: int| 0 <= j < glyphs@.len() implies glyphs_v(glyphs@)[j] == glyphs_v(
            src@,
        )[j] by {
            assert(glyph_copied(glyphs@[j], src@[j]));
        }
        assert(glyphs_v(glyphs@) =~= glyphs_v(src@));
    }
    glyphs
}

/// `a` holds the same outline as `b`, element for element.
pub open spec fn glyph_copied(a: Option<Vec<GlyphSeg>>, b: Option<Vec<GlyphSeg>>) -> bool {
    match (a, b) {
        (Some(x), Some(y)) => x@ == y@,
        (None, None) => true,
        _ => false,
    }
}

/// The widths of an all-numeric object array, or nothing if one is not a
/// number.
pub open spec fn spec_widths(ws: Seq<Obj>) -> Option<Seq<i64>>
    decreases ws.len(),
{
    if ws.len() == 0 {
        Some(Seq::<i64>::empty())
    } else {
        match ws[0].spec_fx() {
            Some(v) => match spec_widths(ws.drop_first()) {
                Some(rest) => Some(seq![v as i64] + rest),
                None => None,
            },
            None => None,
        }
    }
}

/// The identifiers of an all-reference object array, or nothing.
pub open spec fn spec_ids(a: Seq<Obj>) -> Option<Seq<ObjId>>
    decreases a.len(),
{
    if a.len() == 0 {
        Some(Seq::<ObjId>::empty())
    } else {
        match a[0] {
            Obj::Reference(id) => match spec_ids(a.drop_first()) {
                Some(rest) => Some(seq![id] + rest),
                None => None,
            },
            _ => None,
        }
    }
}

/// What loading a font from `root` answers, step for step: `root` must be a
/// dictionary whose DescendantFonts is an array holding exactly one
/// reference to a dictionary; that dictionary names a FontDescriptor
/// dictionary and carries a W array of the form `[0 [w0 w1 ...]]` (any
/// other form is `UnsupportedWidths`); the descriptor's FontFile2 must
/// reference a stream, and its FontName must be a name. Every other failure
/// is `BadFont`.
pub open spec fn spec_font_source(objects: Seq<(ObjId, Obj)>, root: Obj) -> Result<
    FontSrcV,
    Error,
> {
    match root {
        Obj::Dict(font) => match entries_get(font.entries@, "DescendantFonts"@) {
            Some(Obj::Array(df)) => match spec_ids(df@) {
                Some(ids) => {
                    if ids.len() == 1 {
                        match spec_dict_at(objects, ids[0]) {
                            Some(descendant) => match entries_get(
                                descendant.entries@,
                                "FontDescriptor"@,
                            ) {
                                Some(Obj::Reference(did)) => match spec_dict_at(objects, did) {
                                    Some(descriptor) => spec_font_source_tail(
                                        objects,
                                        descendant,
                                        descriptor,
                                    ),
                                    None => Err(Error::BadFont),
                                },
                                _ => Err(Error::BadFont),
                            },
                            None => Err(Error::BadFont),
                        }
                    } else {
                        Err(Error::BadFont)
                    }
                },
                None => Err(Error::BadFont),
            },
            _ => Err(Error::BadFont),
        },
        _ => Err(Error::BadFont),
    }
}

/// The dictionary stored under `id` in `objects`.
pub open spec fn spec_dict_at(objects: Seq<(ObjId, Obj)>, id: ObjId) -> Option<Dict> {
    match objects_get(objects, id) {
        Some(Obj::Dict(d)) => Some(d),
        _ => None,
    }
}

/// The widths, program and name read from the descendant and descriptor
/// dictionaries.
pub open spec fn spec_font_source_tail(
    objects: Seq<(ObjId, Obj)>,
    descendant: Dict,
    descriptor: Dict,
) -> Result<FontSrcV, Error> {
    match entries_get(descendant.entries@, "W"@) {
        Some(Obj::Array(w)) => {
            if w@.len() == 2 && (w@[0] matches Obj::Integer(0)) && (w@[1] matches Obj::Array(_)) {
                match w@[1] {
                    Obj::Array(ws) => match spec_widths(ws@) {
                        Some(widths) => match entries_get(descriptor.entries@, "FontFile2"@) {
                            Some(ff) => match spec_stream_bytes(objects, ff) {
                                Ok(bytes) => match entries_get(
                                    descriptor.entries@,
                                    "FontName"@,
                                ) {
                                    Some(Obj::Name(n)) => Ok(
                                        FontSrcV { name: n@, widths, font_file: bytes },
                                    ),
                                    _ => Err(Error::BadFont),
                                },
                                Err(_) => Err(Error::BadFont),
                            },
                            None => Err(Error::BadFont),
                        },
                        None => Err(Error::UnsupportedWidths),
                    },
                    _ => Err(Error::UnsupportedWidths),
                }
            } else {
                Err(Error::UnsupportedWidths)
            }
        },
        Some(_) => Err(Error::UnsupportedWidths),
        None => Err(Error::BadFont),
    }
}

/// The decompressed bytes behind a reference to a stream.
pub open spec fn spec_stream_bytes(objects: Seq<(ObjId, Obj)>, root: Obj) -> Result<
    Seq<u8>,
    Error,
> {
    match root {
        Obj::Reference(id) => match objects_get(objects, id) {
            Some(Obj::Stream(b)) => Ok(b@),
            _ => Err(Error::BadOperand),
        },
        _ => Err(Error::BadOperand),
    }
}

impl FromPDF for FontSource {
    /// Validate a font dictionary and pull out what the interpreter needs;
    /// the embedded program still has to be parsed to make a [`Font`].
    fn from_pdf(doc: &Document, root: &Obj) -> (r: Result<FontSource, Error>)
        ensures
            match r {
                Ok(src) => spec_font_source(doc.objects@, *root) == Ok::<FontSrcV, Error>(src@),
                Err(e) => spec_font_source(doc.objects@, *root) == Err::<FontSrcV, Error>(e),
            },
    {
        let font: &Dict = match root.as_dict() {
            Ok(d) => d,
            Err(_) => {
                return Err(Error::BadFont);
            },
        };
        let df: &Vec<Obj> = match font.get("DescendantFonts") {
            Some(Obj::Array(v)) => v,
            _ => {
                return Err(Error::BadFont);
            },
        };
        let ids: Vec<ObjId> = match ids_from_array(df) {
            Some(v) => v,
            None => {
                return Err(Error::BadFont);
            },
        };
        if ids.len() != 1 {
            return Err(Error::BadFont);
        }
        let descendant: &Dict = match doc.get_dictionary(ids[0]) {
            Some(d) => d,
            None => {
                return Err(Error::BadFont);
            },
        };
        let descriptor: &Dict = match font_descriptor_of(doc, descendant) {
            Some(d) => d,
            None => {
                return Err(Error::BadFont);
            },
        };
        let ws: &Vec<Obj> = match descendant.get("W") {
            Some(Obj::Array(w)) => {
                if w.len() == 2 {
                    let first_zero: bool = match &w[0] {
                        Obj::Integer(i) => *i == 0,
                        _ => false,
                    };
                    if first_zero {
                        match &w[1] {
                            Obj::Array(ws) => ws,
                            _ => {
                                return Err(Error::UnsupportedWidths);
                            },
                        }
                    } else {
                        return Err(Error::UnsupportedWidths);
                    }
                } else {
                    return Err(Error::UnsupportedWidths);
                }
            },
            Some(_) => {
                return Err(Error::UnsupportedWidths);
            },
            None => {
                return Err(Error::BadFont);
            },
        };
        let widths: Vec<i64> = match widths_from_array(ws) {
            Some(v) => v,
            None => {
                return Err(Error::UnsupportedWidths);
            },
        };
        let ff: &Obj = match descriptor.get("FontFile2") {
            Some(o) => o,
            None => {
                return Err(Error::BadFont);
            },
        };
        let font_file: Vec<u8> = match Vec::<u8>::from_pdf(doc, ff) {
            Ok(b) => b,
            Err(_) => {
                return Err(Error::BadFont);
            },
        };
        let name: String = match descriptor.get("FontName") {
            Some(Obj::Name(n)) => n.clone(),
            _ => {
                return Err(Error::BadFont);
            },
        };
        Ok(FontSource { name, widths, font_file })
    }
}

/// The FontDescriptor dictionary a descendant font references.
fn font_descriptor_of<'a>(doc: &'a Document, descendant: &Dict) -> (r: Option<&'a Dict>)
    ensures
        match r {
            Some(d) => (match entries_get(descendant.entries@, "FontDescriptor"@) {
                Some(Obj::Reference(did)) => spec_dict_at(doc.objects@, did) == Some(*d),
                _ => false,
            }),
            None => (match entries_get(descendant.entries@, "FontDescriptor"@) {
                Some(Obj::Reference(did)) => spec_dict_at(doc.objects@, did) is None,
                _ => true,
            }),
        },
{
    match descendant.get("FontDescriptor") {
        Some(Obj::Reference(did)) => doc.get_dictionary((did.0, did.1)),
        _ => None,
    }
}

/// Read an array of references as identifiers; `None` on any other element.
fn ids_from_array(a: &Vec<Obj>) -> (r: Option<Vec<ObjId>>)
    ensures
        match r {
            Some(v) => spec_ids(a@) == Some(v@),
            None => spec_ids(a@) is None,
        },
{
    let mut out: Vec<ObjId> = Vec::new();
    let mut i: usize = 0;
    proof {
        assert(a@.skip(0) =~= a@);
    }
    while i < a.len()
        invariant
            i <= a.len(),
            match spec_ids(a@.skip(i as int)) {
                Some(rest) => spec_ids(a@) == Some(out@ + rest),
                None => spec_ids(a@) is None,
            },
        decreases a.len() - i,
    {
        proof {
            assert(a@.skip(i as int).drop_first() =~= a@.skip(i as int + 1));
        }
        match &a[i] {
            Obj::Reference(id) => {
                out.push((id.0, id.1));
                proof {
                    if let Some(rest) = spec_ids(a@.skip(i as int + 1)) {
                        assert(old_push_assoc_ids(out@, a@[i as int]->Reference_0, rest));
                    }
                }
            },
            _ => {
                return None;
            },
        }
        i = i + 1;
    }
    proof {
        assert(a@.skip(a@.len() as int) =~= Seq::<Obj>::empty());
        assert(out@ + Seq::<ObjId>::empty() =~= out@);
    }
    Some(out)
}

/// After pushing `x`, the accumulated prefix still composes: this only
/// restates sequence associativity in the shape the loop needs.
spec fn old_push_assoc_ids(out_new: Seq<ObjId>, x: ObjId, rest: Seq<ObjId>) -> bool {
    out_new.drop_last() + (seq![x] + rest) =~= out_new + rest
}

impl FromPDF for Vec<ObjId> {
    /// The identifiers of an array of references.
    fn from_pdf(doc: &Document, root: &Obj) -> (r: Result<Vec<ObjId>, Error>)
        ensures
            match r {
                Ok(v) => root matches Obj::Array(a) && spec_ids(a@) == Some(v@),
                Err(e) => e == Error::BadOperand && (match root {
                    Obj::Array(a) => spec_ids(a@) is None,
                    _ => true,
                }),
            },
    {
        match root {
            Obj::Array(a) => match ids_from_array(a) {
                Some(v) => Ok(v),
                None => Err(Error::BadOperand),
            },
            _ => Err(Error::BadOperand),
        }
    }
}

/// The sources of the fonts among `entries` that load cleanly; a font that
/// fails to load is dropped, the page goes on without it.
pub open spec fn spec_font_sources(
    objects: Seq<(ObjId, Obj)>,
    entries: Seq<(String, Obj)>,
) -> Seq<(Seq<char>, FontSrcV)>
    decreases entries.len(),
{
    if entries.len() == 0 {
        Seq::<(Seq<char>, FontSrcV)>::empty()
    } else {
        let rest = spec_font_sources(objects, entries.drop_first());
        match spec_font_source(objects, entries[0].1) {
            Ok(src) => seq![(entries[0].0@, src)] + rest,
            Err(_) => rest,
        }
    }
}

/// Validate every font of a page's resources, keeping the ones that load;
/// fails only when the page itself is unknown.
pub fn font_sources(doc: &Document, page: u32) -> (r: Result<Vec<(String, FontSource)>, Error>)
    ensures
        match r {
            Ok(v) => crate::object::table_get(doc.page_fonts@, page) matches Some(entries)
                && v@.map_values(|p: (String, FontSource)| (p.0@, p.1@)) == spec_font_sources(
                doc.objects@,
                entries@,
            ),
            Err(e) => crate::object::table_get(doc.page_fonts@, page) is None && e
                == Error::MissingPage,
        },
{
    let entries: &Vec<(String, Obj)> = match doc.page_fonts_of(page) {
        Some(v) => v,
        None => {
            return Err(Error::MissingPage);
        },
    };
    let mut out: Vec<(String, FontSource)> = Vec::new();
    let mut i: usize = 0;
    proof {
        assert(entries@.skip(0) =~= entries@);
    }
    while i < entries.len()
        invariant
            i <= entries.len(),
            spec_font_sources(doc.objects@, entries@) =~= out@.map_values(
                |p: (String, FontSource)| (p.0@, p.1@),
            ) + spec_font_sources(doc.objects@, entries@.skip(i as int)),
        decreases entries.len() - i,
    {
        proof {
            assert(entries@.skip(i as int).drop_first() =~= entries@.skip(i as int + 1));
            assert(entries@.skip(i as int)[0] == entries@[i as int]);
        }
        let ghost out_pre = out@;
        match FontSource::from_pdf(doc, &entries[i].1) {
            Ok(src) => {
                out.push((entries[i].0.clone(), src));
                proof {
                    let f = |p: (String, FontSource)| (p.0@, p.1@);
                    assert(out@.map_values(f) =~= out_pre.map_values(f) + seq![
                        (entries@[i as int].0@, out@.last().1@),
                    ]);
                    assert(spec_font_sources(doc.objects@, entries@) =~= out@.map_values(f)
                        + spec_font_sources(doc.objects@, entries@.skip(i as int + 1)));
                }
            },
            Err(_) => {},
        }
        i = i + 1;
    }
    proof {
        assert(entries@.skip(entries@.len() as int) =~= Seq::<(String, Obj)>::empty());
        assert(spec_font_sources(doc.objects@, entries@) =~= out@.map_values(
            |p: (String, FontSource)| (p.0@, p.1@),
        ));
    }
    Ok(out)
}

/// The font map assembled from loader data and parsed faces: an entry whose
/// face failed to parse is dropped, the page goes on without that font.
pub open spec fn spec_assemble(items: Seq<(String, FontSource, Option<FaceData>)>) -> Seq<
    (Seq<char>, FontV),
>
    decreases items.len(),
{
    if items.len() == 0 {
        Seq::<(Seq<char>, FontV)>::empty()
    } else {
        let rest = spec_assemble(items.drop_first());
        match items[0].2 {
            Some(fd) => seq![
                (
                    items[0].0@,
                    FontV {
                        name: items[0].1.name@,
                        units_per_em: fd.units_per_em,
                        widths: items[0].1.widths@,
                        glyphs: glyphs_v(fd.glyphs@),
                    },
                ),
            ] + rest,
            None => rest,
        }
    }
}

/// Pair each font source with its parsed face into the page's font map,
/// dropping the fonts whose program did not parse.
pub fn assemble_font_map(items: &Vec<(String, FontSource, Option<FaceData>)>) -> (r: Vec<
    (String, Font),
>)
    ensures
        r@.map_values(|p: (String, Font)| (p.0@, p.1@)) == spec_assemble(items@),
{
    let mut out: Vec<(String, Font)> = Vec::new();
    let mut i: usize = 0;
    proof {
        assert(items@.skip(0) =~= items@);
    }
    while i < items.len()
        invariant
            i <= items.len(),
            spec_assemble(items@) =~= out@.map_values(|p: (String, Font)| (p.0@, p.1@))
                + spec_assemble(items@.skip(i as int)),
        decreases items.len() - i,
    {
        proof {
            assert(items@.skip(i as int).drop_first() =~= items@.skip(i as int + 1));
            assert(items@.skip(i as int)[0] == items@[i as int]);
        }
        let ghost out_pre = out@;
        match &items[i].2 {
            Some(fd) => {
                let font = Font {
                    name: items[i].1.name.clone(),
                    units_per_em: fd.units_per_em,
                    widths: copy_vec(&items[i].1.widths),
                    glyphs: copy_glyphs(&fd.glyphs),
                };
                out.push((items[i].0.clone(), font));
                proof {
                    let f = |p: (String, Font)| (p.0@, p.1@);
                    assert(out@.last().1@ =~= (FontV {
                        name: items@[i as int].1.name@,
                        units_per_em: items@[i as int].2->Some_0.units_per_em,
                        widths: items@[i as int].1.widths@,
                        glyphs: glyphs_v(items@[i as int].2->Some_0.glyphs@),
                    }));
                    assert(out@.map_values(f) =~= out_pre.map_values(f) + seq![
                        (items@[i as int].0@, out@.last().1@),
                    ]);
                    assert(spec_assemble(items@) =~= out@.map_values(f) + spec_assemble(
                        items@.skip(i as int + 1),
                    ));
                }
            },
            None => {},
        }
        i = i + 1;
    }
    proof {
        assert(items@.skip(items@.len() as int) =~= Seq::<
            (String, FontSource, Option<FaceData>),
        >::empty());
        assert(spec_assemble(items@) =~= out@.map_values(|p: (String, Font)| (p.0@, p.1@)));
    }
    out
}

/// Read an all-numeric array as widths; `None` on any other element.
fn widths_from_array(a: &Vec<Obj>) -> (r: Option<Vec<i64>>)
    ensures
        match r {
            Some(v) => spec_widths(a@) == Some(v@),
            None => spec_widths(a@) is None,
        },
{
    let mut out: Vec<i64> = Vec::new();
    let mut i: usize = 0;
    proof {
        assert(a@.skip(0) =~= a@);
    }
    while i < a.len()
        invariant
            i <= a.len(),
            match spec_widths(a@.skip(i as int)) {
                Some(rest) => spec_widths(a@) == Some(out@ + rest),
                None => spec_widths(a@) is None,
            },
        decreases a.len() - i,
    {
        proof {
            assert(a@.skip(i as int).drop_first() =~= a@.skip(i as int + 1));
        }
        match a[i].as_fx() {
            Ok(v) => {
                out.push(v);
                proof {
                    if let Some(rest) = spec_widths(a@.skip(i as int + 1)) {
                        assert(out@.drop_last() + (seq![v] + rest) =~= out@ + rest);
                    }
                }
            },
            Err(_) => {
                return None;
            },
        }
        i = i + 1;
    }
    proof {
        assert(a@.skip(a@.len() as int) =~= Seq::<Obj>::empty());
        assert(out@ + Seq::<i64>::empty() =~= out@);
    }
    Some(out)
}

} // verus!
