//! The typed form of a sprite sheet descriptor, and the errors a parse can
//! raise.
//!
//! A descriptor document names the sheet's image file and lists the named
//! sub-textures with their top-left corner and size in pixels.  The parser
//! itself lives in [`crate::xml`] and [`crate::numeric`]; this module holds
//! the data types they produce.

use vstd::prelude::*;

use crate::coord::{coord_in_range, Coord, Rect, RectV};
use crate::numeric::{parse_micros, spec_micros};
use crate::util::copy_bytes;
use crate::xml::{attrs_view, children_view, AttrS, ChildS, DocS, RawChild};

verus! {

/// The mathematical value of a [`SubTexture`]: its name as a byte sequence
/// and its geometry in millionths of a pixel.
#[verifier::ext_equal]
pub struct SubV {
    pub name: Seq<u8>,
    pub x: int,
    pub y: int,
    pub width: int,
    pub height: int,
}

/// One named region as declared in the descriptor: a top-left offset and an
/// extent, both in pixels of the source image (origin at the top-left).
///
/// The name is kept as the attribute's UTF-8 bytes.  Coordinates are exact
/// fixed-point values; the parser accepts them even when negative or zero,
/// leaving any judgement about their sanity to the builder.
#[derive(Debug, Clone)]
pub struct SubTexture {
    pub name: Vec<u8>,
    pub x: Coord,
    pub y: Coord,
    pub width: Coord,
    pub height: Coord,
}

impl View for SubTexture {
    type V = SubV;

    open spec fn view(&self) -> SubV {
        SubV {
            name: self.name@,
            x: self.x@,
            y: self.y@,
            width: self.width@,
            height: self.height@,
        }
    }
}

/// True when every coordinate of `s` lies within the parser's bound
/// [`crate::coord::COORD_MAX_MICROS`], so that sums of two of them fit an
/// `i64`.  Every sub-texture the parser produces satisfies this.
pub open spec fn sub_in_range(s: SubV) -> bool {
    coord_in_range(s.x) && coord_in_range(s.y) && coord_in_range(s.width) && coord_in_range(
        s.height,
    )
}

/// The rectangle covered by `s`: `(x, y, x + width, y + height)` in
/// (left, top, right, bottom) form.
pub open spec fn rect_of(s: SubV) -> RectV {
    RectV { left: s.x, top: s.y, right: s.x + s.width, bottom: s.y + s.height }
}

impl SubTexture {
    /// The axis-aligned box covered by this sub-texture, recomputed on
    /// demand: `(x, y, x + width, y + height)`, exactly, with no rounding.
    pub fn rect(&self) -> (r: Rect)
        requires
            i64::MIN <= self@.x + self@.width <= i64::MAX,
            i64::MIN <= self@.y + self@.height <= i64::MAX,
        ensures
            r@ == rect_of(self@),
    {
        Rect::new(
            self.x,
            self.y,
            Coord { micros: self.x.micros + self.width.micros },
            Coord { micros: self.y.micros + self.height.micros },
        )
    }
}

/// The sequence of mathematical values of a sequence of sub-textures.
pub open spec fn subs_view(s: Seq<SubTexture>) -> Seq<SubV> {
    s.map_values(|t: SubTexture| t@)
}

/// The mathematical value of a [`KeyedTextureAtlasConfig`].
#[verifier::ext_equal]
pub struct ConfigV {
    pub image_path: Seq<u8>,
    pub sub_textures: Seq<SubV>,
}

/// The full parsed descriptor: the sheet image's path (relative to the
/// descriptor's own location, resolved by the caller) and the declared
/// sub-textures in declaration order.  That order determines slot indices
/// when an atlas is built from it.
#[derive(Debug, Clone)]
pub struct KeyedTextureAtlasConfig {
    pub image_path: Vec<u8>,
    pub sub_textures: Vec<SubTexture>,
}

impl View for KeyedTextureAtlasConfig {
    type V = ConfigV;

    open spec fn view(&self) -> ConfigV {
        ConfigV { image_path: self.image_path@, sub_textures: subs_view(self.sub_textures@) }
    }
}

/// True when every sub-texture of `c` is within the parser's coordinate
/// bound; see [`sub_in_range`].
pub open spec fn config_in_range(c: ConfigV) -> bool {
    forall|i: int| 0 <= i < c.sub_textures.len() ==> sub_in_range(#[trigger] c.sub_textures[i])
}

/// The mathematical value of a [`SchemaError`].
#[verifier::ext_equal]
pub enum SchemaErrorV {
    MalformedXml,
    MissingAttribute(Seq<u8>),
    InvalidNumber(Seq<u8>),
}

/// The mathematical value of a [`ParseError`].
#[verifier::ext_equal]
pub enum ParseErrorV {
    Encoding,
    Schema(SchemaErrorV),
}

/// Why the text of a descriptor was rejected.
#[derive(Debug, Clone, PartialEq, Eq)]
pub enum SchemaError {
    /// The text is not a well-formed document of the expected shape: one
    /// root element holding only child elements without children of their
    /// own.
    MalformedXml,
    /// A required attribute is absent; carries the attribute's name.
    MissingAttribute { attribute: Vec<u8> },
    /// An attribute that must hold plain decimal text holds something else,
    /// or a value too large for the parser's fixed-point range; carries the
    /// attribute's name.
    InvalidNumber { attribute: Vec<u8> },
}

/// Why a descriptor failed to parse.
#[derive(Debug, Clone, PartialEq, Eq)]
pub enum ParseError {
    /// The input bytes are not valid UTF-8 text.
    Encoding,
    /// The text is well-encoded but does not match the expected schema.
    Schema(SchemaError),
}

impl View for SchemaError {
    type V = SchemaErrorV;

    open spec fn view(&self) -> SchemaErrorV {
        match self {
            SchemaError::MalformedXml => SchemaErrorV::MalformedXml,
            SchemaError::MissingAttribute { attribute } => SchemaErrorV::MissingAttribute(
                attribute@,
            ),
            SchemaError::InvalidNumber { attribute } => SchemaErrorV::InvalidNumber(attribute@),
        }
    }
}

impl View for ParseError {
    type V = ParseErrorV;

    open spec fn view(&self) -> ParseErrorV {
        match self {
            ParseError::Encoding => ParseErrorV::Encoding,
            ParseError::Schema(e) => ParseErrorV::Schema(e@),
        }
    }
}

/// The bytes of the root's required attribute name, `imagePath`.
pub open spec fn key_image_path() -> Seq<u8> {
    seq![105u8, 109u8, 97u8, 103u8, 101u8, 80u8, 97u8, 116u8, 104u8]
}

/// The bytes of the attribute name `name`.
pub open spec fn key_name() -> Seq<u8> {
    seq![110u8, 97u8, 109u8, 101u8]
}

/// The bytes of the attribute name `x`.
pub open spec fn key_x() -> Seq<u8> {
    seq![120u8]
}

/// The bytes of the attribute name `y`.
pub open spec fn key_y() -> Seq<u8> {
    seq![121u8]
}

/// The bytes of the attribute name `width`.
pub open spec fn key_width() -> Seq<u8> {
    seq![119u8, 105u8, 100u8, 116u8, 104u8]
}

/// The bytes of the attribute name `height`.
pub open spec fn key_height() -> Seq<u8> {
    seq![104u8, 101u8, 105u8, 103u8, 104u8, 116u8]
}

fn key_image_path_x() -> (r: Vec<u8>)
    ensures
        r@ == key_image_path(),
{
    let mut v: Vec<u8> = Vec::new();
    v.push(105);
    v.push(109);
    v.push(97);
    v.push(103);
    v.push(101);
    v.push(80);
    v.push(97);
    v.push(116);
    v.push(104);
    proof {
        assert(v@ =~= key_image_path());
    }
    v
}

fn key_name_x() -> (r: Vec<u8>)
    ensures
        r@ == key_name(),
{
    let mut v: Vec<u8> = Vec::new();
    v.push(110);
    v.push(97);
    v.push(109);
    v.push(101);
    proof {
        assert(v@ =~= key_name());
    }
    v
}

fn key_x_x() -> (r: Vec<u8>)
    ensures
        r@ == key_x(),
{
    let mut v: Vec<u8> = Vec::new();
    v.push(120);
    proof {
        assert(v@ =~= key_x());
    }
    v
}

fn key_y_x() -> (r: Vec<u8>)
    ensures
        r@ == key_y(),
{
    let mut v: Vec<u8> = Vec::new();
    v.push(121);
    proof {
        assert(v@ =~= key_y());
    }
    v
}

fn key_width_x() -> (r: Vec<u8>)
    ensures
        r@ == key_width(),
{
    let mut v: Vec<u8> = Vec::new();
    v.push(119);
    v.push(105);
    v.push(100);
    v.push(116);
    v.push(104);
    proof {
        assert(v@ =~= key_width());
    }
    v
}

fn key_height_x() -> (r: Vec<u8>)
    ensures
        r@ == key_height(),
{
    let mut v: Vec<u8> = Vec::new();
    v.push(104);
    v.push(101);
    v.push(105);
    v.push(103);
    v.push(104);
    v.push(116);
    proof {
        assert(v@ =~= key_height());
    }
    v
}

/// The value of the first attribute named `key` at or after position `i`,
/// if any.
pub open spec fn find_attr_from(attrs: Seq<AttrS>, key: Seq<u8>, i: int) -> Option<Seq<u8>>
    decreases attrs.len() - i,
{
    if i < 0 || i >= attrs.len() {
        None
    } else if attrs[i].name == key {
        Some(attrs[i].value)
    } else {
        find_attr_from(attrs, key, i + 1)
    }
}

/// The value of the first attribute named `key`, if any.
pub open spec fn find_attr(attrs: Seq<AttrS>, key: Seq<u8>) -> Option<Seq<u8>> {
    find_attr_from(attrs, key, 0)
}

fn find_attr_x(attrs: &Vec<crate::xml::Attr>, from: usize, key: &[u8]) -> (r: Option<Vec<u8>>)
    requires
        from as int <= attrs@.len(),
    ensures
        r is None ==> find_attr_from(attrs_view(attrs@), key@, from as int) is None,
        r matches Some(v) ==> find_attr_from(attrs_view(attrs@), key@, from as int) == Some(v@),
    decreases attrs@.len() - from,
{
    if from >= attrs.len() {
        None
    } else {
        proof {
            assert(attrs_view(attrs@)[from as int] == attrs@[from as int]@);
        }
        if crate::util::bytes_eq(attrs[from].name.as_slice(), key) {
            Some(copy_bytes(attrs[from].value.as_slice()))
        } else {
            find_attr_x(attrs, from + 1, key)
        }
    }
}

/// The number that the attribute named `key` carries: its value read as
/// decimal text, or the error saying why there is none.
pub open spec fn attr_num(attrs: Seq<AttrS>, key: Seq<u8>) -> Result<int, SchemaErrorV> {
    match find_attr(attrs, key) {
        None => Err(SchemaErrorV::MissingAttribute(key)),
        Some(v) => match spec_micros(v) {
            Some(m) => Ok(m),
            None => Err(SchemaErrorV::InvalidNumber(key)),
        },
    }
}

fn attr_num_x(attrs: &Vec<crate::xml::Attr>, key: &Vec<u8>) -> (r: Result<i64, SchemaError>)
    ensures
        r matches Ok(m) ==> attr_num(attrs_view(attrs@), key@) == Ok::<int, SchemaErrorV>(m as int)
            && coord_in_range(m as int),
        r matches Err(e) ==> attr_num(attrs_view(attrs@), key@) == Err::<int, SchemaErrorV>(e@),
{
    match find_attr_x(attrs, 0, key.as_slice()) {
        None => Err(SchemaError::MissingAttribute { attribute: copy_bytes(key.as_slice()) }),
        Some(v) => match parse_micros(v.as_slice()) {
            Some(m) => Ok(m),
            None => Err(SchemaError::InvalidNumber { attribute: copy_bytes(key.as_slice()) }),
        },
    }
}

/// The sub-texture that a childless element declares: its `name` attribute
/// and the numbers in `x`, `y`, `width` and `height`.  The first missing
/// or unreadable attribute, in that order, decides the error.
pub open spec fn spec_sub_of(c: ChildS) -> Result<SubV, SchemaErrorV> {
    match find_attr(c.attrs, key_name()) {
        None => Err(SchemaErrorV::MissingAttribute(key_name())),
        Some(nm) => match attr_num(c.attrs, key_x()) {
            Err(e) => Err(e),
            Ok(x) => match attr_num(c.attrs, key_y()) {
                Err(e) => Err(e),
                Ok(y) => match attr_num(c.attrs, key_width()) {
                    Err(e) => Err(e),
                    Ok(w) => match attr_num(c.attrs, key_height()) {
                        Err(e) => Err(e),
                        Ok(h) => Ok(SubV { name: nm, x: x, y: y, width: w, height: h }),
                    },
                },
            },
        },
    }
}

fn parse_sub(c: &RawChild) -> (r: Result<SubTexture, SchemaError>)
    ensures
        r matches Ok(s) ==> spec_sub_of(c@) == Ok::<SubV, SchemaErrorV>(s@) && sub_in_range(s@),
        r matches Err(e) ==> spec_sub_of(c@) == Err::<SubV, SchemaErrorV>(e@),
{
    let name = match find_attr_x(&c.attrs, 0, key_name_x().as_slice()) {
        None => {
            return Err(SchemaError::MissingAttribute { attribute: key_name_x() });
        },
        Some(v) => v,
    };
    let x = match attr_num_x(&c.attrs, &key_x_x()) {
        Err(e) => {
            return Err(e);
        },
        Ok(m) => m,
    };
    let y = match attr_num_x(&c.attrs, &key_y_x()) {
        Err(e) => {
            return Err(e);
        },
        Ok(m) => m,
    };
    let w = match attr_num_x(&c.attrs, &key_width_x()) {
        Err(e) => {
            return Err(e);
        },
        Ok(m) => m,
    };
    let h = match attr_num_x(&c.attrs, &key_height_x()) {
        Err(e) => {
            return Err(e);
        },
        Ok(m) => m,
    };
    Ok(
        SubTexture {
            name,
            x: Coord { micros: x },
            y: Coord { micros: y },
            width: Coord { micros: w },
            height: Coord { micros: h },
        },
    )
}

/// The sub-textures that the elements from position `i` on declare, in
/// document order; the first element in error decides the error.
pub open spec fn spec_subs_from(cs: Seq<ChildS>, i: int) -> Result<Seq<SubV>, SchemaErrorV>
    decreases cs.len() - i,
{
    if i < 0 || i >= cs.len() {
        Ok(Seq::empty())
    } else {
        match spec_sub_of(cs[i]) {
            Err(e) => Err(e),
            Ok(s0) => match spec_subs_from(cs, i + 1) {
                Err(e) => Err(e),
                Ok(rest) => Ok(seq![s0] + rest),
            },
        }
    }
}

fn parse_subs(cs: &Vec<RawChild>, from: usize) -> (r: Result<Vec<SubTexture>, SchemaError>)
    requires
        from as int <= cs@.len(),
    ensures
        r matches Ok(v) ==> spec_subs_from(children_view(cs@), from as int) == Ok::<
            Seq<SubV>,
            SchemaErrorV,
        >(subs_view(v@)) && (forall|k: int|
            0 <= k < v@.len() ==> sub_in_range(#[trigger] subs_view(v@)[k])),
        r matches Err(e) ==> spec_subs_from(children_view(cs@), from as int) == Err::<
            Seq<SubV>,
            SchemaErrorV,
        >(e@),
    decreases cs@.len() - from,
{
    if from >= cs.len() {
        proof {
            assert(subs_view(Seq::<SubTexture>::empty()) =~= Seq::<SubV>::empty());
        }
        return Ok(Vec::new());
    }
    proof {
        assert(children_view(cs@)[from as int] == cs@[from as int]@);
    }
    match parse_sub(&cs[from]) {
        Err(e) => Err(e),
        Ok(s0) => match parse_subs(cs, from + 1) {
            Err(e) => Err(e),
            Ok(mut rest) => {
                let ghost old_rest = rest@;
                let ghost s0v = s0@;
                rest.insert(0, s0);
                proof {
                    assert(subs_view(rest@) =~= seq![s0v] + subs_view(old_rest));
                }
                Ok(rest)
            },
        },
    }
}

/// The descriptor that a whole document denotes: the root's `imagePath`
/// and the children's sub-textures, in document order.
pub open spec fn spec_config_of(doc: DocS) -> Result<ConfigV, SchemaErrorV> {
    match find_attr(doc.root_attrs, key_image_path()) {
        None => Err(SchemaErrorV::MissingAttribute(key_image_path())),
        Some(ip) => match spec_subs_from(doc.children, 0) {
            Err(e) => Err(e),
            Ok(subs) => Ok(ConfigV { image_path: ip, sub_textures: subs }),
        },
    }
}

/// The descriptor that the bytes `s` denote, or the error saying why there
/// is none: bytes that are not UTF-8 text fail the encoding; text that is
/// not a document of the expected shape, or one whose sub-textures lack a
/// required attribute or carry an unreadable number, fails the schema.
pub open spec fn spec_parse(s: Seq<u8>) -> Result<ConfigV, ParseErrorV> {
    if !vstd::utf8::valid_utf8(s) {
        Err(ParseErrorV::Encoding)
    } else {
        match crate::xml::spec_document(s) {
            None => Err(ParseErrorV::Schema(SchemaErrorV::MalformedXml)),
            Some(doc) => match spec_config_of(doc) {
                Err(e) => Err(ParseErrorV::Schema(e)),
                Ok(c) => Ok(c),
            },
        }
    }
}

/// Relies on str::from_utf8: it returns `Ok` exactly when the bytes are
/// valid UTF-8, the property that vstd's `valid_utf8` spells out.
#[verifier::external_body]
fn utf8_check(bytes: &[u8]) -> (r: bool)
    ensures
        r == vstd::utf8::valid_utf8(bytes@),
{
    core::str::from_utf8(bytes).is_ok()
}

/// Parses descriptor bytes into a typed descriptor: exactly the value of
/// [`spec_parse`] on the same bytes.  A pure transform of the buffer: no
/// side effects, and sub-textures keep their declaration order.
pub fn parse(bytes: &[u8]) -> (r: Result<KeyedTextureAtlasConfig, ParseError>)
    ensures
        r matches Ok(c) ==> spec_parse(bytes@) == Ok::<ConfigV, ParseErrorV>(c@)
            && config_in_range(c@),
        r matches Err(e) ==> spec_parse(bytes@) == Err::<ConfigV, ParseErrorV>(e@),
{
    if !utf8_check(bytes) {
        return Err(ParseError::Encoding);
    }
    match crate::xml::parse_document(bytes) {
        None => Err(ParseError::Schema(SchemaError::MalformedXml)),
        Some(doc) => {
            match find_attr_x(&doc.root_attrs, 0, key_image_path_x().as_slice()) {
                None => Err(
                    ParseError::Schema(
                        SchemaError::MissingAttribute { attribute: key_image_path_x() },
                    ),
                ),
                Some(ip) => match parse_subs(&doc.children, 0) {
                    Err(e) => Err(ParseError::Schema(e)),
                    Ok(subs) => Ok(KeyedTextureAtlasConfig { image_path: ip, sub_textures: subs }),
                },
            }
        },
    }
}

} // verus!
