//! Recognizing image files by their first bytes.
use vstd::prelude::*;
use crate::bytes::{slice_is, slice_eq};

verus! {

pub const HEADER_JPG1: [u8; 4] = [0xff, 0xd8, 0xff, 0xdb];
pub const HEADER_JPG2: [u8; 4] = [0xff, 0xd8, 0xff, 0xe0];
pub const HEADER_JPG3: [u8; 4] = [0xff, 0xd8, 0xff, 0xee];
pub const HEADER_JPG_EXIF: [u8; 4] = [0xff, 0xd8, 0xff, 0xe1];
pub const HEADER_JPG_EXIF_AFTER: [u8; 6] = [0x45, 0x78, 0x69, 0x66, 0x00, 0x00];
pub const HEADER_PNG: [u8; 8] = [0x89, 0x50, 0x4E, 0x47, 0x0D, 0x0A, 0x1A, 0x0A];
pub const HEADER_GIF1: [u8; 6] = [0x47, 0x49, 0x46, 0x38, 0x37, 0x61];
pub const HEADER_GIF2: [u8; 6] = [0x47, 0x49, 0x46, 0x38, 0x39, 0x61];
pub const HEADER_WEBP: [u8; 4] = [0x52, 0x49, 0x46, 0x46];
pub const HEADER_WEBP_AFTER: [u8; 4] = [0x57, 0x45, 0x42, 0x50];
pub const HEADER_TIF_LITTLE: [u8; 4] = [0x49, 0x49, 0x2A, 0x00];
pub const HEADER_TIF_BIG: [u8; 4] = [0x4D, 0x4D, 0x00, 0x2A];
pub const HEADER_BMP: [u8; 2] = [0x42, 0x4D];
pub const HEADER_ICO: [u8; 4] = [0x00, 0x00, 0x01, 0x00];
pub const HEADER_HDR: [u8; 11] = [0x23, 0x3f, 0x52, 0x41, 0x44, 0x49, 0x41, 0x4e, 0x43, 0x45, 0x0a];
pub const HEADER_EXR: [u8; 4] = [0x76, 0x2F, 0x31, 0x01];
pub const HEADER_PBM1: [u8; 3] = [0x50, 0x31, 0x0A];
pub const HEADER_PBM2: [u8; 3] = [0x50, 0x34, 0x0A];
pub const HEADER_PGM1: [u8; 3] = [0x50, 0x32, 0x0A];
pub const HEADER_PGM2: [u8; 3] = [0x50, 0x35, 0x0A];
pub const HEADER_PPM1: [u8; 3] = [0x50, 0x33, 0x0A];
pub const HEADER_PPM2: [u8; 3] = [0x50, 0x36, 0x0A];

/// Image formats that the preview can show.
#[derive(Debug, Clone, Copy, PartialEq, Eq, Structural)]
pub enum ImageSignature {
    Jpg,
    Png,
    Gif,
    Webp,
    Tif,
    Bmp,
    Ico,
    Hdr,
    Exr,
    Pbm,
    Pgm,
    Ppm,
    NotSupported,
}

/// The image format that the first 12 bytes `b` of a file announce.
pub open spec fn spec_image_signature(b: Seq<u8>) -> ImageSignature {
    if slice_is(b, 0, 4, HEADER_JPG1@) || slice_is(b, 0, 4, HEADER_JPG2@) || slice_is(b, 0, 4, HEADER_JPG3@) || (slice_is(b, 0, 4, HEADER_JPG_EXIF@) && slice_is(b, 6, 12, HEADER_JPG_EXIF_AFTER@)) {
        ImageSignature::Jpg
    } else if slice_is(b, 0, 8, HEADER_PNG@) {
        ImageSignature::Png
    } else if slice_is(b, 0, 6, HEADER_GIF1@) || slice_is(b, 0, 6, HEADER_GIF2@) {
        ImageSignature::Gif
    } else if slice_is(b, 0, 4, HEADER_WEBP@) && slice_is(b, 8, 12, HEADER_WEBP_AFTER@) {
        ImageSignature::Webp
    } else if slice_is(b, 0, 4, HEADER_TIF_LITTLE@) || slice_is(b, 0, 4, HEADER_TIF_BIG@) {
        ImageSignature::Tif
    } else if slice_is(b, 0, 2, HEADER_BMP@) {
        ImageSignature::Bmp
    } else if slice_is(b, 0, 4, HEADER_ICO@) {
        ImageSignature::Ico
    } else if slice_is(b, 0, 11, HEADER_HDR@) {
        ImageSignature::Hdr
    } else if slice_is(b, 0, 4, HEADER_EXR@) {
        ImageSignature::Exr
    } else if slice_is(b, 0, 3, HEADER_PBM1@) || slice_is(b, 0, 3, HEADER_PBM2@) {
        ImageSignature::Pbm
    } else if slice_is(b, 0, 3, HEADER_PGM1@) || slice_is(b, 0, 3, HEADER_PGM2@) {
        ImageSignature::Pgm
    } else if slice_is(b, 0, 3, HEADER_PPM1@) || slice_is(b, 0, 3, HEADER_PPM2@) {
        ImageSignature::Ppm
    } else {
        ImageSignature::NotSupported
    }
}

/// The image format that the first 12 bytes of a file announce.
pub fn inspect_image(buffer: &[u8]) -> (r: ImageSignature)
    requires
        buffer@.len() == 12,
    ensures
        r == spec_image_signature(buffer@),
{
    if slice_eq(buffer, 0, 4, &HEADER_JPG1) || slice_eq(buffer, 0, 4, &HEADER_JPG2) || slice_eq(buffer, 0, 4, &HEADER_JPG3) || (slice_eq(buffer, 0, 4, &HEADER_JPG_EXIF) && slice_eq(buffer, 6, 12, &HEADER_JPG_EXIF_AFTER)) {
        ImageSignature::Jpg
    } else if slice_eq(buffer, 0, 8, &HEADER_PNG) {
        ImageSignature::Png
    } else if slice_eq(buffer, 0, 6, &HEADER_GIF1) || slice_eq(buffer, 0, 6, &HEADER_GIF2) {
        ImageSignature::Gif
    } else if slice_eq(buffer, 0, 4, &HEADER_WEBP) && slice_eq(buffer, 8, 12, &HEADER_WEBP_AFTER) {
        ImageSignature::Webp
    } else if slice_eq(buffer, 0, 4, &HEADER_TIF_LITTLE) || slice_eq(buffer, 0, 4, &HEADER_TIF_BIG) {
        ImageSignature::Tif
    } else if slice_eq(buffer, 0, 2, &HEADER_BMP) {
        ImageSignature::Bmp
    } else if slice_eq(buffer, 0, 4, &HEADER_ICO) {
        ImageSignature::Ico
    } else if slice_eq(buffer, 0, 11, &HEADER_HDR) {
        ImageSignature::Hdr
    } else if slice_eq(buffer, 0, 4, &HEADER_EXR) {
        ImageSignature::Exr
    } else if slice_eq(buffer, 0, 3, &HEADER_PBM1) || slice_eq(buffer, 0, 3, &HEADER_PBM2) {
        ImageSignature::Pbm
    } else if slice_eq(buffer, 0, 3, &HEADER_PGM1) || slice_eq(buffer, 0, 3, &HEADER_PGM2) {
        ImageSignature::Pgm
    } else if slice_eq(buffer, 0, 3, &HEADER_PPM1) || slice_eq(buffer, 0, 3, &HEADER_PPM2) {
        ImageSignature::Ppm
    } else {
        ImageSignature::NotSupported
    }
}

/// Whether a file whose first bytes are `header` is an image that can be previewed
/// (a file shorter than 12 bytes never is).
pub fn is_supported_image_type(header: &[u8]) -> (r: bool)
    ensures
        r == (header@.len() >= 12 && spec_image_signature(header@.subrange(0, 12)) != ImageSignature::NotSupported),
{
    if header.len() < 12 {
        return false;
    }
    let (buffer, _) = header.split_at(12);
    let sign = inspect_image(buffer);
    match sign {
        ImageSignature::NotSupported => false,
        _ => true,
    }
}

} // verus!
