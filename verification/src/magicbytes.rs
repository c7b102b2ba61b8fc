//! Recognizing archives by their signature (first bytes, and the `ustar` mark of tar).
use vstd::prelude::*;
use crate::bytes::{slice_is, slice_eq};

verus! {

pub const HEADER_PKZIP: [u8; 4] = [0x50, 0x4b, 0x03, 0x04];
pub const HEADER_TARZ_LZW: [u8; 2] = [0x1F, 0x9D];
pub const HEADER_TARZ_LZH: [u8; 2] = [0x1F, 0xA0];
pub const HEADER_GZIP: [u8; 2] = [0x1F, 0x8B];
pub const HEADER_LZH0: [u8; 5] = [0x2D, 0x68, 0x6C, 0x30, 0x2D];
pub const HEADER_LZH5: [u8; 5] = [0x2D, 0x68, 0x6C, 0x35, 0x2D];
pub const HEADER_BZ2: [u8; 3] = [0x42, 0x5A, 0x68];
pub const HEADER_RNC1: [u8; 4] = [0x52, 0x4E, 0x43, 0x01];
pub const HEADER_RNC2: [u8; 4] = [0x52, 0x4E, 0x43, 0x02];
pub const HEADER_RAR1: [u8; 7] = [0x52, 0x61, 0x72, 0x21, 0x1A, 0x07, 0x00];
pub const HEADER_RAR5: [u8; 8] = [0x52, 0x61, 0x72, 0x21, 0x1A, 0x07, 0x01, 0x00];
pub const HEADER_RSVKDATA: [u8; 8] = [0x52, 0x53, 0x56, 0x4B, 0x44, 0x41, 0x54, 0x41];
pub const HEADER_LZIP: [u8; 4] = [0x4C, 0x5A, 0x49, 0x50];
pub const HEADER_SZDD9X: [u8; 4] = [0x53, 0x5A, 0x44, 0x44];
pub const HEADER_SZDDQUANTUM: [u8; 8] = [0x53, 0x5A, 0x44, 0x44, 0x88, 0xF0, 0x27, 0x33];
pub const HEADER_ACE: [u8; 7] = [0x2A, 0x2A, 0x41, 0x43, 0x45, 0x2A, 0x2A];
pub const HEADER_KWAJ: [u8; 4] = [0x4B, 0x57, 0x41, 0x4A];
pub const HEADER_ISZ: [u8; 4] = [0x49, 0x73, 0x5A, 0x21];
pub const HEADER_DRACO: [u8; 5] = [0x44, 0x52, 0x41, 0x43, 0x4F];
pub const HEADER_DCMPA30: [u8; 8] = [0x44, 0x43, 0x4D, 0x01, 0x50, 0x41, 0x33, 0x30];
pub const HEADER_PA30: [u8; 4] = [0x50, 0x41, 0x33, 0x30];
pub const HEADER_SLOB: [u8; 8] = [0x21, 0x2D, 0x31, 0x53, 0x4C, 0x4F, 0x42, 0x1F];
pub const HEADER_XZ: [u8; 6] = [0xFD, 0x37, 0x7A, 0x58, 0x5A, 0x00];
pub const HEADER_ZLIB_NO_COMPRESSION_WITHOUT_PRESET: [u8; 2] = [0x78, 0x01];
pub const HEADER_ZLIB_DEFAULT_COMPRESSION_WITHOUT_PRESET: [u8; 2] = [0x78, 0x9C];
pub const HEADER_ZLIB_BEST_SPEED_WITHOUT_PRESET: [u8; 2] = [0x78, 0x5E];
pub const HEADER_ZLIB_BEST_COMPRESSION_WITHOUT_PRESET: [u8; 2] = [0x78, 0xDA];
pub const HEADER_ZLIB_NO_COMPRESSION_WITH_PRESET: [u8; 2] = [0x78, 0x20];
pub const HEADER_ZLIB_DEFAULT_COMPRESSION_WITH_PRESET: [u8; 2] = [0x78, 0xBB];
pub const HEADER_ZLIB_BEST_SPEED_WITH_PRESET: [u8; 2] = [0x78, 0x7D];
pub const HEADER_ZLIB_BEST_COMPRESSION_WITH_PRESET: [u8; 2] = [0x78, 0xF9];
pub const HEADER_LZFSE: [u8; 4] = [0x62, 0x76, 0x78, 0x32];
pub const HEADER_ZSTD: [u8; 4] = [0x28, 0xB5, 0x2F, 0xFD];
pub const HEADER_TAR1: [u8; 8] = [0x75, 0x73, 0x74, 0x61, 0x72, 0x00, 0x30, 0x30];
pub const HEADER_TAR2: [u8; 8] = [0x75, 0x73, 0x74, 0x61, 0x72, 0x20, 0x20, 0x00];

#[derive(Debug, Clone, Copy, PartialEq, Eq, Structural)]
pub enum Signature {
    Pkzip,
    Tar,
    TarzLZW,
    TarzLZH,
    Lzh0,
    Lzh5,
    Bzip2,
    Rnc1,
    Rnc2,
    Lzip,
    Rar1,
    Rar5,
    Gzip,
    SzddQuantum,
    Rsvkdata,
    Ace,
    Kwaj,
    Szdd9x,
    Isz,
    Draco,
    Slob,
    Xz,
    DCMPa30,
    Pa30,
    Zlib(ZlibCompression),
    Lzfse,
    Zstd,
    NonArchived,
}

#[derive(Debug, Clone, Copy, PartialEq, Eq, Structural)]
pub enum ZlibCompression {
    NoCompressionWithoutPreset,
    BestSpeedWithoutPreset,
    DefaultCompressionWithoutPreset,
    BestCompressionWithoutPreset,
    NoCompressionWithPreset,
    BestSpeedWithPreset,
    DefaultCompressionWithPreset,
    BestCompressionWithPreset,
}

/// The archive type that the first 265 bytes `b` of a file announce; the
/// signatures are tried in a fixed order, the tar mark at offset 257 last.
/// (The lzh signatures are five bytes long but compared with six, so they never match.)
pub open spec fn spec_signature(b: Seq<u8>) -> Signature {
    if slice_is(b, 0, 4, HEADER_PKZIP@) {
        Signature::Pkzip
    } else if slice_is(b, 0, 2, HEADER_TARZ_LZW@) {
        Signature::TarzLZW
    } else if slice_is(b, 0, 2, HEADER_TARZ_LZH@) {
        Signature::TarzLZH
    } else if slice_is(b, 0, 2, HEADER_GZIP@) {
        Signature::Gzip
    } else if slice_is(b, 0, 5, HEADER_LZH0@) {
        Signature::Lzh0
    } else if slice_is(b, 0, 5, HEADER_LZH5@) {
        Signature::Lzh5
    } else if slice_is(b, 0, 3, HEADER_BZ2@) {
        Signature::Bzip2
    } else if slice_is(b, 0, 4, HEADER_RNC1@) {
        Signature::Rnc1
    } else if slice_is(b, 0, 4, HEADER_RNC2@) {
        Signature::Rnc2
    } else if slice_is(b, 0, 7, HEADER_RAR1@) {
        Signature::Rar1
    } else if slice_is(b, 0, 8, HEADER_RAR5@) {
        Signature::Rar5
    } else if slice_is(b, 0, 8, HEADER_RSVKDATA@) {
        Signature::Rsvkdata
    } else if slice_is(b, 0, 4, HEADER_LZIP@) {
        Signature::Lzip
    } else if slice_is(b, 0, 4, HEADER_SZDD9X@) {
        Signature::Szdd9x
    } else if slice_is(b, 0, 8, HEADER_SZDDQUANTUM@) {
        Signature::SzddQuantum
    } else if slice_is(b, 0, 7, HEADER_ACE@) {
        Signature::Ace
    } else if slice_is(b, 0, 4, HEADER_KWAJ@) {
        Signature::Kwaj
    } else if slice_is(b, 0, 4, HEADER_ISZ@) {
        Signature::Isz
    } else if slice_is(b, 0, 5, HEADER_DRACO@) {
        Signature::Draco
    } else if slice_is(b, 0, 8, HEADER_DCMPA30@) {
        Signature::DCMPa30
    } else if slice_is(b, 0, 4, HEADER_PA30@) {
        Signature::Pa30
    } else if slice_is(b, 0, 8, HEADER_SLOB@) {
        Signature::Slob
    } else if slice_is(b, 0, 6, HEADER_XZ@) {
        Signature::Xz
    } else if slice_is(b, 0, 2, HEADER_ZLIB_NO_COMPRESSION_WITHOUT_PRESET@) {
        Signature::Zlib(ZlibCompression::NoCompressionWithoutPreset)
    } else if slice_is(b, 0, 2, HEADER_ZLIB_DEFAULT_COMPRESSION_WITHOUT_PRESET@) {
        Signature::Zlib(ZlibCompression::DefaultCompressionWithoutPreset)
    } else if slice_is(b, 0, 2, HEADER_ZLIB_BEST_SPEED_WITHOUT_PRESET@) {
        Signature::Zlib(ZlibCompression::BestSpeedWithoutPreset)
    } else if slice_is(b, 0, 2, HEADER_ZLIB_BEST_COMPRESSION_WITHOUT_PRESET@) {
        Signature::Zlib(ZlibCompression::BestCompressionWithoutPreset)
    } else if slice_is(b, 0, 2, HEADER_ZLIB_NO_COMPRESSION_WITH_PRESET@) {
        Signature::Zlib(ZlibCompression::NoCompressionWithPreset)
    } else if slice_is(b, 0, 2, HEADER_ZLIB_DEFAULT_COMPRESSION_WITH_PRESET@) {
        Signature::Zlib(ZlibCompression::DefaultCompressionWithPreset)
    } else if slice_is(b, 0, 2, HEADER_ZLIB_BEST_SPEED_WITH_PRESET@) {
        Signature::Zlib(ZlibCompression::BestSpeedWithPreset)
    } else if slice_is(b, 0, 2, HEADER_ZLIB_BEST_COMPRESSION_WITH_PRESET@) {
        Signature::Zlib(ZlibCompression::BestCompressionWithPreset)
    } else if slice_is(b, 0, 4, HEADER_LZFSE@) {
        Signature::Lzfse
    } else if slice_is(b, 0, 4, HEADER_ZSTD@) {
        Signature::Zstd
    } else if slice_is(b, 257, 265, HEADER_TAR1@) || slice_is(b, 257, 265, HEADER_TAR2@) {
        Signature::Tar
    } else {
        Signature::NonArchived
    }
}

/// The archive type that the first 265 bytes of a file announce.
pub fn inspect_signatures(buffer: &[u8]) -> (r: Signature)
    requires
        buffer@.len() == 265,
    ensures
        r == spec_signature(buffer@),
{
    if slice_eq(buffer, 0, 4, &HEADER_PKZIP) {
        Signature::Pkzip
    } else if slice_eq(buffer, 0, 2, &HEADER_TARZ_LZW) {
        Signature::TarzLZW
    } else if slice_eq(buffer, 0, 2, &HEADER_TARZ_LZH) {
        Signature::TarzLZH
    } else if slice_eq(buffer, 0, 2, &HEADER_GZIP) {
        Signature::Gzip
    } else if slice_eq(buffer, 0, 5, &HEADER_LZH0) {
        Signature::Lzh0
    } else if slice_eq(buffer, 0, 5, &HEADER_LZH5) {
        Signature::Lzh5
    } else if slice_eq(buffer, 0, 3, &HEADER_BZ2) {
        Signature::Bzip2
    } else if slice_eq(buffer, 0, 4, &HEADER_RNC1) {
        Signature::Rnc1
    } else if slice_eq(buffer, 0, 4, &HEADER_RNC2) {
        Signature::Rnc2
    } else if slice_eq(buffer, 0, 7, &HEADER_RAR1) {
        Signature::Rar1
    } else if slice_eq(buffer, 0, 8, &HEADER_RAR5) {
        Signature::Rar5
    } else if slice_eq(buffer, 0, 8, &HEADER_RSVKDATA) {
        Signature::Rsvkdata
    } else if slice_eq(buffer, 0, 4, &HEADER_LZIP) {
        Signature::Lzip
    } else if slice_eq(buffer, 0, 4, &HEADER_SZDD9X) {
        Signature::Szdd9x
    } else if slice_eq(buffer, 0, 8, &HEADER_SZDDQUANTUM) {
        Signature::SzddQuantum
    } else if slice_eq(buffer, 0, 7, &HEADER_ACE) {
        Signature::Ace
    } else if slice_eq(buffer, 0, 4, &HEADER_KWAJ) {
        Signature::Kwaj
    } else if slice_eq(buffer, 0, 4, &HEADER_ISZ) {
        Signature::Isz
    } else if slice_eq(buffer, 0, 5, &HEADER_DRACO) {
        Signature::Draco
    } else if slice_eq(buffer, 0, 8, &HEADER_DCMPA30) {
        Signature::DCMPa30
    } else if slice_eq(buffer, 0, 4, &HEADER_PA30) {
        Signature::Pa30
    } else if slice_eq(buffer, 0, 8, &HEADER_SLOB) {
        Signature::Slob
    } else if slice_eq(buffer, 0, 6, &HEADER_XZ) {
        Signature::Xz
    } else if slice_eq(buffer, 0, 2, &HEADER_ZLIB_NO_COMPRESSION_WITHOUT_PRESET) {
        Signature::Zlib(ZlibCompression::NoCompressionWithoutPreset)
    } else if slice_eq(buffer, 0, 2, &HEADER_ZLIB_DEFAULT_COMPRESSION_WITHOUT_PRESET) {
        Signature::Zlib(ZlibCompression::DefaultCompressionWithoutPreset)
    } else if slice_eq(buffer, 0, 2, &HEADER_ZLIB_BEST_SPEED_WITHOUT_PRESET) {
        Signature::Zlib(ZlibCompression::BestSpeedWithoutPreset)
    } else if slice_eq(buffer, 0, 2, &HEADER_ZLIB_BEST_COMPRESSION_WITHOUT_PRESET) {
        Signature::Zlib(ZlibCompression::BestCompressionWithoutPreset)
    } else if slice_eq(buffer, 0, 2, &HEADER_ZLIB_NO_COMPRESSION_WITH_PRESET) {
        Signature::Zlib(ZlibCompression::NoCompressionWithPreset)
    } else if slice_eq(buffer, 0, 2, &HEADER_ZLIB_DEFAULT_COMPRESSION_WITH_PRESET) {
        Signature::Zlib(ZlibCompression::DefaultCompressionWithPreset)
    } else if slice_eq(buffer, 0, 2, &HEADER_ZLIB_BEST_SPEED_WITH_PRESET) {
        Signature::Zlib(ZlibCompression::BestSpeedWithPreset)
    } else if slice_eq(buffer, 0, 2, &HEADER_ZLIB_BEST_COMPRESSION_WITH_PRESET) {
        Signature::Zlib(ZlibCompression::BestCompressionWithPreset)
    } else if slice_eq(buffer, 0, 4, &HEADER_LZFSE) {
        Signature::Lzfse
    } else if slice_eq(buffer, 0, 4, &HEADER_ZSTD) {
        Signature::Zstd
    } else if slice_eq(buffer, 257, 265, &HEADER_TAR1) || slice_eq(buffer, 257, 265, &HEADER_TAR2) {
        Signature::Tar
    } else {
        Signature::NonArchived
    }
}

} // verus!
