//! Loader front ends: the pure core of descriptor loading.
//!
//! The surrounding asset pipeline reads the descriptor bytes, decodes the
//! referenced image and publishes the results; those duties stay with the
//! caller.  What the loaders own is the transform in between: bytes to
//! typed descriptor, and descriptor plus image dimensions to keyed atlas.

use vstd::prelude::*;

use crate::atlas::{build, first_out_of_bounds_from, keys_of, BuildError, KeyedTextureAtlas};
use crate::descriptor::{
    config_in_range, parse, rect_of, spec_parse, ConfigV, KeyedTextureAtlasConfig, ParseError,
    ParseErrorV,
};

verus! {

/// Why a load failed: in the parse of the descriptor, or in the build of
/// the atlas.
#[derive(Debug, Clone, PartialEq, Eq)]
pub enum LoadError {
    Parse(ParseError),
    Build(BuildError),
}

/// Loads a keyed texture atlas: parses descriptor bytes and builds the
/// atlas against the decoded image's pixel dimensions.  Reading the bytes
/// and decoding the image stay with the caller.
#[derive(Debug, Default, Clone, Copy)]
pub struct KeyedTextureAtlasLoader;

impl KeyedTextureAtlasLoader {
    /// Parses `bytes` and builds the keyed atlas for an image of
    /// `image_width` by `image_height` pixels; see [`parse`] and
    /// [`build`] for the two halves of the contract.
    pub fn load(
        &self,
        bytes: &[u8],
        image_width: u32,
        image_height: u32,
        strict: bool,
    ) -> (r: Result<KeyedTextureAtlas, LoadError>)
        ensures
            ({
                match spec_parse(bytes@) {
                    Err(pe) => r matches Err(LoadError::Parse(e)) && e@ == pe,
                    Ok(cv) => {
                        let oob = first_out_of_bounds_from(
                            cv.sub_textures,
                            image_width,
                            image_height,
                            0,
                        );
                        match r {
                            Ok(a) => {
                                &&& strict ==> oob is None
                                &&& a.atlas.width == image_width
                                &&& a.atlas.height == image_height
                                &&& a.atlas.textures@.len() == cv.sub_textures.len()
                                &&& forall|i: int|
                                    0 <= i < cv.sub_textures.len() ==> (
                                    #[trigger] a.atlas.textures@[i])@ == rect_of(
                                        cv.sub_textures[i],
                                    )
                                &&& a.keys@ == keys_of(cv.sub_textures)
                                &&& forall|n: Seq<u8>|
                                    a.keys@.dom().contains(n) ==> 0 <= #[trigger] a.keys@[n]
                                        < a.atlas.textures@.len()
                            },
                            Err(LoadError::Build(BuildError::OutOfBounds { index, name })) => {
                                &&& strict
                                &&& oob == Some(index as int)
                                &&& name@ == cv.sub_textures[index as int].name
                            },
                            Err(LoadError::Parse(_)) => false,
                        }
                    },
                }
            }),
    {
        match parse(bytes) {
            Err(e) => Err(LoadError::Parse(e)),
            Ok(config) => match build(&config, image_width, image_height, strict) {
                Err(e) => Err(LoadError::Build(e)),
                Ok(atlas) => Ok(atlas),
            },
        }
    }

    /// The descriptor file extensions this loader serves.
    pub fn extensions(&self) -> (r: Vec<String>)
        ensures
            r@.len() == 1,
            r@[0]@ == "xml"@,
    {
        let mut v: Vec<String> = Vec::new();
        v.push("xml".to_owned());
        v
    }
}

/// Loads a descriptor alone, without touching the image: the parse half of
/// [`KeyedTextureAtlasLoader`].
#[derive(Debug, Default, Clone, Copy)]
pub struct TextureAtlasXmlLoader;

impl TextureAtlasXmlLoader {
    /// Parses `bytes` into a typed descriptor; see [`parse`].
    pub fn load(&self, bytes: &[u8]) -> (r: Result<KeyedTextureAtlasConfig, ParseError>)
        ensures
            r matches Ok(c) ==> spec_parse(bytes@) == Ok::<ConfigV, ParseErrorV>(c@)
                && config_in_range(c@),
            r matches Err(e) ==> spec_parse(bytes@) == Err::<ConfigV, ParseErrorV>(e@),
    {
        parse(bytes)
    }

    /// The descriptor file extensions this loader serves.
    pub fn extensions(&self) -> (r: Vec<String>)
        ensures
            r@.len() == 1,
            r@[0]@ == "xml"@,
    {
        let mut v: Vec<String> = Vec::new();
        v.push("xml".to_owned());
        v
    }
}

/// The earliest form of the descriptor loader: parses a descriptor and
/// nothing more.
#[derive(Debug, Default, Clone, Copy)]
pub struct KenneyTextureAtlasLoader;

impl KenneyTextureAtlasLoader {
    /// Parses `bytes` into a typed descriptor; see [`parse`].
    pub fn load(&self, bytes: &[u8]) -> (r: Result<KeyedTextureAtlasConfig, ParseError>)
        ensures
            r matches Ok(c) ==> spec_parse(bytes@) == Ok::<ConfigV, ParseErrorV>(c@)
                && config_in_range(c@),
            r matches Err(e) ==> spec_parse(bytes@) == Err::<ConfigV, ParseErrorV>(e@),
    {
        parse(bytes)
    }

    /// The descriptor file extensions this loader serves.
    pub fn extensions(&self) -> (r: Vec<String>)
        ensures
            r@.len() == 1,
            r@[0]@ == "xml"@,
    {
        let mut v: Vec<String> = Vec::new();
        v.push("xml".to_owned());
        v
    }
}

} // verus!
