//! Statically allocated image data handed to a presentation layer: a path
//! label paired with raw bytes, and the planned set of image formats.

use vstd::prelude::*;

verus! {

/// A named block of PNG image bytes.
#[derive(Debug, Clone, Copy, PartialEq, Eq)]
pub struct PngPack<'a> {
    pub path: &'a str,
    pub data: &'a [u8],
}

impl<'a> PngPack<'a> {
    /// Bundles a path label with the image bytes it names.
    pub fn new(path: &'a str, data: &'a [u8]) -> (r: PngPack<'a>)
        ensures
            r.path@ == path@,
            r.data@ == data@,
    {
        PngPack { path, data }
    }
}

/// The image formats a future asset pack may carry.
pub enum PlannedExtEnum {
    Gif,
    Png,
    Qoi,
    Jpg,
    Svg,
    Tga,
    Unk,
}

/// A named block of image bytes of a known format.
pub struct ImgPack<'a> {
    pub path: &'a str,
    pub data: &'a [u8],
    pub ext: PlannedExtEnum,
}

impl<'a> ImgPack<'a> {
    /// Bundles a path label and format tag with the image bytes they name.
    pub fn new(path: &'a str, data: &'a [u8], ext: PlannedExtEnum) -> (r: ImgPack<'a>)
        ensures
            r.path@ == path@,
            r.data@ == data@,
            r.ext == ext,
    {
        ImgPack { path, data, ext }
    }
}

} // verus!
