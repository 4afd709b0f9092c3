//! The document model: objects, dictionaries and per-page tables, as the
//! document oracle answers them.
//!
//! PDF parsing, stream decompression and object storage stay outside the
//! library; the front end resolves them into these plain values. Numbers
//! arrive as fixed-point micro-units, names as strings, streams as their
//! decompressed bytes.

use vstd::prelude::*;
use crate::error::Error;
use crate::fx::{fx_of_i64, fx_of_int_v};

verus! {

/// An object identifier: object number and generation number.
pub type ObjId = (u32, u16);

/// A resolved PDF object.
#[derive(Debug)]
pub enum Obj {
    Null,
    Boolean(bool),
    Integer(i64),
    /// A real number, in fixed-point micro-units.
    Real(i64),
    /// A name, decoded to text.
    Name(String),
    /// A string: raw bytes, uninterpreted.
    Str(Vec<u8>),
    Array(Vec<Obj>),
    Dict(Dict),
    /// A stream's decompressed content.
    Stream(Vec<u8>),
    Reference(ObjId),
}

/// A dictionary: name-keyed entries in file order.
#[derive(Debug)]
pub struct Dict {
    pub entries: Vec<(String, Obj)>,
}

/// First entry of `s` whose key reads `key`.
pub open spec fn entries_get(s: Seq<(String, Obj)>, key: Seq<char>) -> Option<Obj>
    decreases s.len(),
{
    if s.len() == 0 {
        None
    } else if s[0].0@ == key {
        Some(s[0].1)
    } else {
        entries_get(s.drop_first(), key)
    }
}

impl Dict {
    pub open spec fn spec_get(&self, key: Seq<char>) -> Option<Obj> {
        entries_get(self.entries@, key)
    }

    /// Look a key up; the first entry with that name answers.
    pub fn get<'a>(&'a self, key: &str) -> (r: Option<&'a Obj>)
        ensures
            match r {
                Some(o) => self.spec_get(key@) == Some(*o),
                None => self.spec_get(key@) is None,
            },
    {
        let k: String = key.to_owned();
        proof {
            assert(self.entries@.skip(0) =~= self.entries@);
        }
        let mut i: usize = 0;
        while i < self.entries.len()
            invariant
                i <= self.entries.len(),
                k@ == key@,
                entries_get(self.entries@, key@) == entries_get(
                    self.entries@.skip(i as int),
                    key@,
                ),
            decreases self.entries.len() - i,
        {
            proof {
                assert(self.entries@.skip(i as int).drop_first() =~= self.entries@.skip(
                    i as int + 1,
                ));
            }
            if self.entries[i].0 == k {
                return Some(&self.entries[i].1);
            }
            i = i + 1;
        }
        None
    }
}

impl Obj {
    /// The number an operand holds, in micro-units: a real as it stands, an
    /// integer scaled up. Anything else has none.
    pub open spec fn spec_fx(&self) -> Option<int> {
        match self {
            Obj::Real(x) => Some(x as int),
            Obj::Integer(i) => Some(fx_of_int_v(i as int)),
            _ => None,
        }
    }

    /// Read this object as a number in micro-units.
    pub fn as_fx(&self) -> (r: Result<i64, Error>)
        ensures
            match r {
                Ok(v) => self.spec_fx() == Some(v as int),
                Err(e) => self.spec_fx() is None && e == Error::BadOperand,
            },
    {
        match self {
            Obj::Real(x) => Ok(*x),
            Obj::Integer(i) => Ok(fx_of_i64(*i)),
            _ => Err(Error::BadOperand),
        }
    }

    /// Read this object as a plain integer.
    pub fn as_i64(&self) -> (r: Result<i64, Error>)
        ensures
            match r {
                Ok(v) => self matches Obj::Integer(i) && i == v,
                Err(e) => !(self matches Obj::Integer(_)) && e == Error::BadOperand,
            },
    {
        match self {
            Obj::Integer(i) => Ok(*i),
            _ => Err(Error::BadOperand),
        }
    }

    /// Read this object as a reference.
    pub fn as_reference(&self) -> (r: Result<ObjId, Error>)
        ensures
            match r {
                Ok(id) => self matches Obj::Reference(i) && i == id,
                Err(e) => !(self matches Obj::Reference(_)) && e == Error::BadOperand,
            },
    {
        match self {
            Obj::Reference(id) => Ok((id.0, id.1)),
            _ => Err(Error::BadOperand),
        }
    }

    /// Read this object as an array.
    pub fn as_array<'a>(&'a self) -> (r: Result<&'a Vec<Obj>, Error>)
        ensures
            match r {
                Ok(v) => self matches Obj::Array(a) && a == v,
                Err(e) => !(self matches Obj::Array(_)) && e == Error::BadOperand,
            },
    {
        match self {
            Obj::Array(v) => Ok(v),
            _ => Err(Error::BadOperand),
        }
    }

    /// Read this object as a dictionary.
    pub fn as_dict<'a>(&'a self) -> (r: Result<&'a Dict, Error>)
        ensures
            match r {
                Ok(d) => self matches Obj::Dict(dd) && dd == d,
                Err(e) => !(self matches Obj::Dict(_)) && e == Error::BadOperand,
            },
    {
        match self {
            Obj::Dict(d) => Ok(d),
            _ => Err(Error::BadOperand),
        }
    }

    /// Read this object as a name.
    pub fn as_name<'a>(&'a self) -> (r: Result<&'a String, Error>)
        ensures
            match r {
                Ok(n) => self matches Obj::Name(nn) && nn == n,
                Err(e) => !(self matches Obj::Name(_)) && e == Error::BadOperand,
            },
    {
        match self {
            Obj::Name(n) => Ok(n),
            _ => Err(Error::BadOperand),
        }
    }

    /// Read this object as a stream's decompressed bytes.
    pub fn as_stream<'a>(&'a self) -> (r: Result<&'a Vec<u8>, Error>)
        ensures
            match r {
                Ok(b) => self matches Obj::Stream(bb) && bb == b,
                Err(e) => !(self matches Obj::Stream(_)) && e == Error::BadOperand,
            },
    {
        match self {
            Obj::Stream(b) => Ok(b),
            _ => Err(Error::BadOperand),
        }
    }
}

/// An element-for-element copy of a vector of plain values.
pub fn copy_vec<T: Copy>(v: &Vec<T>) -> (r: Vec<T>)
    ensures
        r@ == v@,
{
    let mut out: Vec<T> = Vec::new();
    let mut i: usize = 0;
    while i < v.len()
        invariant
            i <= v.len(),
            out@ == v@.subrange(0, i as int),
        decreases v.len() - i,
    {
        out.push(v[i]);
        i = i + 1;
    }
    proof {
        assert(out@ =~= v@);
    }
    out
}

/// Reading a typed value out of an object, resolving references against the
/// document where the type asks for it.
pub trait FromPDF: Sized {
    fn from_pdf(doc: &Document, root: &Obj) -> Result<Self, Error>;
}

/// The decompressed content of the stream `root` references.
pub open spec fn spec_bytes_from(objects: Seq<(ObjId, Obj)>, root: Obj) -> Result<
    Seq<u8>,
    Error,
> {
    match root {
        Obj::Reference(id) => match objects_get(objects, id) {
            Some(Obj::Stream(b)) => Ok(b@),
            _ => Err(Error::BadOperand),
        },
        _ => Err(Error::BadOperand),
    }
}

impl FromPDF for Vec<u8> {
    /// The decompressed content of the stream `root` references.
    fn from_pdf(doc: &Document, root: &Obj) -> (r: Result<Vec<u8>, Error>)
        ensures
            match r {
                Ok(b) => spec_bytes_from(doc.objects@, *root) == Ok::<Seq<u8>, Error>(b@),
                Err(e) => spec_bytes_from(doc.objects@, *root) == Err::<Seq<u8>, Error>(e),
            },
    {
        let id = root.as_reference()?;
        match doc.get_object(id) {
            Some(Obj::Stream(b)) => Ok(copy_vec(b)),
            _ => Err(Error::BadOperand),
        }
    }
}

impl FromPDF for ObjId {
    /// The reference `root` holds.
    fn from_pdf(doc: &Document, root: &Obj) -> (r: Result<ObjId, Error>)
        ensures
            match r {
                Ok(id) => root matches Obj::Reference(i) && i == id,
                Err(e) => !(root matches Obj::Reference(_)) && e == Error::BadOperand,
            },
    {
        root.as_reference()
    }
}

impl FromPDF for String {
    /// The text of the name `root` holds.
    fn from_pdf(doc: &Document, root: &Obj) -> (r: Result<String, Error>)
        ensures
            match r {
                Ok(n) => root matches Obj::Name(nn) && nn@ == n@,
                Err(e) => !(root matches Obj::Name(_)) && e == Error::BadOperand,
            },
    {
        match root.as_name() {
            Ok(n) => Ok(n.clone()),
            Err(e) => Err(e),
        }
    }
}

impl FromPDF for i64 {
    /// The integer `root` holds.
    fn from_pdf(doc: &Document, root: &Obj) -> (r: Result<i64, Error>)
        ensures
            match r {
                Ok(v) => root matches Obj::Integer(i) && i == v,
                Err(e) => !(root matches Obj::Integer(_)) && e == Error::BadOperand,
            },
    {
        root.as_i64()
    }
}

/// One content-stream operation: an operator and its operands, in stream
/// order.
#[derive(Debug)]
pub struct Op {
    pub operator: String,
    pub operands: Vec<Obj>,
}

/// First object of `s` stored under `id`.
pub open spec fn objects_get(s: Seq<(ObjId, Obj)>, id: ObjId) -> Option<Obj>
    decreases s.len(),
{
    if s.len() == 0 {
        None
    } else if s[0].0 == id {
        Some(s[0].1)
    } else {
        objects_get(s.drop_first(), id)
    }
}

/// First value of `s` stored under the page number `page`.
pub open spec fn table_get<T>(s: Seq<(u32, T)>, page: u32) -> Option<T>
    decreases s.len(),
{
    if s.len() == 0 {
        None
    } else if s[0].0 == page {
        Some(s[0].1)
    } else {
        table_get(s.drop_first(), page)
    }
}

/// The document oracle's answers, resolved to plain values: the object
/// store, the page table, and each page's fonts and decoded content stream.
#[derive(Debug)]
pub struct Document {
    pub objects: Vec<(ObjId, Obj)>,
    /// Page number (counted from 1) to page dictionary object.
    pub pages: Vec<(u32, ObjId)>,
    /// Page number to that page's font resources: name to font dictionary.
    pub page_fonts: Vec<(u32, Vec<(String, Obj)>)>,
    /// Page number to that page's decoded content stream.
    pub page_contents: Vec<(u32, Vec<Op>)>,
}

impl Document {
    /// Look an object up by its identifier.
    pub fn get_object<'a>(&'a self, id: ObjId) -> (r: Option<&'a Obj>)
        ensures
            match r {
                Some(o) => objects_get(self.objects@, id) == Some(*o),
                None => objects_get(self.objects@, id) is None,
            },
    {
        proof {
            assert(self.objects@.skip(0) =~= self.objects@);
        }
        let mut i: usize = 0;
        while i < self.objects.len()
            invariant
                i <= self.objects.len(),
                objects_get(self.objects@, id) == objects_get(
                    self.objects@.skip(i as int),
                    id,
                ),
            decreases self.objects.len() - i,
        {
            proof {
                assert(self.objects@.skip(i as int).drop_first() =~= self.objects@.skip(
                    i as int + 1,
                ));
            }
            if self.objects[i].0.0 == id.0 && self.objects[i].0.1 == id.1 {
                return Some(&self.objects[i].1);
            }
            i = i + 1;
        }
        None
    }

    /// The dictionary stored under `id`, if the object there is one.
    pub open spec fn spec_dictionary(&self, id: ObjId) -> Option<Dict> {
        match objects_get(self.objects@, id) {
            Some(Obj::Dict(d)) => Some(d),
            _ => None,
        }
    }

    /// Look a dictionary up by its identifier.
    pub fn get_dictionary<'a>(&'a self, id: ObjId) -> (r: Option<&'a Dict>)
        ensures
            match r {
                Some(d) => self.spec_dictionary(id) == Some(*d),
                None => self.spec_dictionary(id) is None,
            },
    {
        match self.get_object(id) {
            Some(Obj::Dict(d)) => Some(d),
            _ => None,
        }
    }

    /// The page dictionary object of the given page number.
    pub fn page_id(&self, page: u32) -> (r: Option<ObjId>)
        ensures
            r == table_get(self.pages@, page),
    {
        proof {
            assert(self.pages@.skip(0) =~= self.pages@);
        }
        let mut i: usize = 0;
        while i < self.pages.len()
            invariant
                i <= self.pages.len(),
                table_get(self.pages@, page) == table_get(self.pages@.skip(i as int), page),
            decreases self.pages.len() - i,
        {
            proof {
                assert(self.pages@.skip(i as int).drop_first() =~= self.pages@.skip(
                    i as int + 1,
                ));
            }
            if self.pages[i].0 == page {
                return Some((self.pages[i].1.0, self.pages[i].1.1));
            }
            i = i + 1;
        }
        None
    }

    /// The font resources of the given page.
    pub fn page_fonts_of<'a>(&'a self, page: u32) -> (r: Option<&'a Vec<(String, Obj)>>)
        ensures
            match r {
                Some(v) => table_get(self.page_fonts@, page) == Some(*v),
                None => table_get(self.page_fonts@, page) is None,
            },
    {
        proof {
            assert(self.page_fonts@.skip(0) =~= self.page_fonts@);
        }
        let mut i: usize = 0;
        while i < self.page_fonts.len()
            invariant
                i <= self.page_fonts.len(),
                table_get(self.page_fonts@, page) == table_get(
                    self.page_fonts@.skip(i as int),
                    page,
                ),
            decreases self.page_fonts.len() - i,
        {
            proof {
                assert(self.page_fonts@.skip(i as int).drop_first() =~= self.page_fonts@.skip(
                    i as int + 1,
                ));
            }
            if self.page_fonts[i].0 == page {
                return Some(&self.page_fonts[i].1);
            }
            i = i + 1;
        }
        None
    }

    /// The decoded content stream of the given page.
    pub fn page_content_of<'a>(&'a self, page: u32) -> (r: Option<&'a Vec<Op>>)
        ensures
            match r {
                Some(v) => table_get(self.page_contents@, page) == Some(*v),
                None => table_get(self.page_contents@, page) is None,
            },
    {
        proof {
            assert(self.page_contents@.skip(0) =~= self.page_contents@);
        }
        let mut i: usize = 0;
        while i < self.page_contents.len()
            invariant
                i <= self.page_contents.len(),
                table_get(self.page_contents@, page) == table_get(
                    self.page_contents@.skip(i as int),
                    page,
                ),
            decreases self.page_contents.len() - i,
        {
            proof {
                assert(self.page_contents@.skip(i as int).drop_first()
                    =~= self.page_contents@.skip(i as int + 1));
            }
            if self.page_contents[i].0 == page {
                return Some(&self.page_contents[i].1);
            }
            i = i + 1;
        }
        None
    }
}

} // verus!
