//! Unpacking archives and compressed files: recognizing the format, decoding
//! it, and deciding what is written out.
use vstd::prelude::*;
use crate::bytes::{slice_is, slice_eq, starts_with};
use crate::digits::push_str;
use crate::errors::FxError;
use crate::magicbytes::ZlibCompression;

verus! {

pub const HEADER_GZIP: [u8; 2] = [0x1F, 0x8B];
pub const HEADER_XZ: [u8; 6] = [0xFD, 0x37, 0x7A, 0x58, 0x5A, 0x00];
pub const HEADER_ZSTD: [u8; 4] = [0x28, 0xB5, 0x2F, 0xFD];
pub const HEADER_PKZIP: [u8; 4] = [0x50, 0x4b, 0x03, 0x04];
pub const HEADER_TARZ_LZW: [u8; 2] = [0x1F, 0x9D];
pub const HEADER_TARZ_LZH: [u8; 2] = [0x1F, 0xA0];
pub const HEADER_SEVENZ: [u8; 6] = [0x37, 0x7A, 0xBC, 0xAF, 0x27, 0x1C];
pub const HEADER_LZH0: [u8; 5] = [0x2D, 0x68, 0x6C, 0x30, 0x2D];
pub const HEADER_LZH5: [u8; 5] = [0x2D, 0x68, 0x6C, 0x35, 0x2D];
pub const HEADER_BZ2: [u8; 3] = [0x42, 0x5A, 0x68];
pub const HEADER_RNC1: [u8; 4] = [0x52, 0x4E, 0x43, 0x01];
pub const HEADER_RNC2: [u8; 4] = [0x52, 0x4E, 0x43, 0x02];
pub const HEADER_RAR1: [u8; 7] = [0x52, 0x61, 0x72, 0x21, 0x1A, 0x07, 0x00];
pub const HEADER_LZIP: [u8; 4] = [0x4C, 0x5A, 0x49, 0x50];
pub const HEADER_RAR5: [u8; 8] = [0x52, 0x61, 0x72, 0x21, 0x1A, 0x07, 0x01, 0x00];
pub const HEADER_SZDDQUANTUM: [u8; 8] = [0x53, 0x5A, 0x44, 0x44, 0x88, 0xF0, 0x27, 0x33];
pub const HEADER_RSVKDATA: [u8; 8] = [0x52, 0x53, 0x56, 0x4B, 0x44, 0x41, 0x54, 0x41];
pub const HEADER_ACE: [u8; 7] = [0x2A, 0x2A, 0x41, 0x43, 0x45, 0x2A, 0x2A];
pub const HEADER_KWAJ: [u8; 4] = [0x4B, 0x57, 0x41, 0x4A];
pub const HEADER_SZDD9X: [u8; 4] = [0x53, 0x5A, 0x44, 0x44];
pub const HEADER_ISZ: [u8; 4] = [0x49, 0x73, 0x5A, 0x21];
pub const HEADER_DRACO: [u8; 5] = [0x44, 0x52, 0x41, 0x43, 0x4F];
pub const HEADER_SLOB: [u8; 8] = [0x21, 0x2D, 0x31, 0x53, 0x4C, 0x4F, 0x42, 0x1F];
pub const HEADER_DCMPA30: [u8; 8] = [0x44, 0x43, 0x4D, 0x01, 0x50, 0x41, 0x33, 0x30];
pub const HEADER_PA30: [u8; 4] = [0x50, 0x41, 0x33, 0x30];
pub const HEADER_LZFSE: [u8; 4] = [0x62, 0x76, 0x78, 0x32];
pub const HEADER_ZLIB_NO_COMPRESSION_WITHOUT_PRESET: [u8; 2] = [0x78, 0x01];
pub const HEADER_ZLIB_DEFAULT_COMPRESSION_WITHOUT_PRESET: [u8; 2] = [0x78, 0x9C];
pub const HEADER_ZLIB_BEST_SPEED_WITHOUT_PRESET: [u8; 2] = [0x78, 0x5E];
pub const HEADER_ZLIB_BEST_COMPRESSION_WITHOUT_PRESET: [u8; 2] = [0x78, 0xDA];
pub const HEADER_ZLIB_NO_COMPRESSION_WITH_PRESET: [u8; 2] = [0x78, 0x20];
pub const HEADER_ZLIB_DEFAULT_COMPRESSION_WITH_PRESET: [u8; 2] = [0x78, 0xBB];
pub const HEADER_ZLIB_BEST_SPEED_WITH_PRESET: [u8; 2] = [0x78, 0x7D];
pub const HEADER_ZLIB_BEST_COMPRESSION_WITH_PRESET: [u8; 2] = [0x78, 0xF9];
pub const HEADER_TAR1: [u8; 8] = [0x75, 0x73, 0x74, 0x61, 0x72, 0x00, 0x30, 0x30];
pub const HEADER_TAR2: [u8; 8] = [0x75, 0x73, 0x74, 0x61, 0x72, 0x20, 0x20, 0x00];

/// Archive and compression formats, by signature.
#[derive(Debug, Clone, Copy, PartialEq, Eq, Structural)]
pub enum CompressionSignature {
    Gzip,
    Xz,
    Zstd,
    Tar,
    Pkzip,
    TarzLZW,
    TarzLZH,
    SevenZ,
    Lzh0,
    Lzh5,
    Bzip2,
    Rnc1,
    Rnc2,
    Lzip,
    Rar1,
    Rar5,
    SzddQuantum,
    Rsvkdata,
    Ace,
    Kwaj,
    Szdd9x,
    Isz,
    Draco,
    Slob,
    DCMPa30,
    Pa30,
    Lzfse,
    Zlib(ZlibCompression),
    NonArchived,
}

/// The name under which a format is reported.
pub open spec fn spec_signature_name(s: CompressionSignature) -> Seq<char> {
    match s {
        CompressionSignature::Gzip => "Gzip"@,
        CompressionSignature::Xz => "xz"@,
        CompressionSignature::Zstd => "zstd"@,
        CompressionSignature::Tar => "tar"@,
        CompressionSignature::Pkzip => "zip"@,
        CompressionSignature::TarzLZW => "tar(LZW)"@,
        CompressionSignature::TarzLZH => "tar(LZH)"@,
        CompressionSignature::SevenZ => "7z"@,
        CompressionSignature::Lzh0 => "lzh method 0"@,
        CompressionSignature::Lzh5 => "lzh method 5"@,
        CompressionSignature::Bzip2 => "Bzip2"@,
        CompressionSignature::Rnc1 => "rnc ver.1"@,
        CompressionSignature::Rnc2 => "rnc ver.2"@,
        CompressionSignature::Lzip => "lzip"@,
        CompressionSignature::Rar1 => "rar v1.50"@,
        CompressionSignature::Rar5 => "rar v5.00"@,
        CompressionSignature::SzddQuantum => "Quantum"@,
        CompressionSignature::Rsvkdata => "QuickZip rs"@,
        CompressionSignature::Ace => "ACE"@,
        CompressionSignature::Kwaj => "KWAJ"@,
        CompressionSignature::Szdd9x => "SZDD"@,
        CompressionSignature::Isz => "ISO"@,
        CompressionSignature::Draco => "Google Draco"@,
        CompressionSignature::Slob => "Slob"@,
        CompressionSignature::DCMPa30 => "Binary Delta"@,
        CompressionSignature::Pa30 => "Binary Delta"@,
        CompressionSignature::Lzfse => "LZFSE"@,
        CompressionSignature::Zlib(_) => "zlib"@,
        CompressionSignature::NonArchived => "Non archived"@,
    }
}

impl CompressionSignature {
    /// The name under which this format is reported (what `Display` prints).
    pub fn name(&self) -> (r: String)
        ensures
            r@ == spec_signature_name(*self),
    {
        match self {
            CompressionSignature::Gzip => String::from_str("Gzip"),
            CompressionSignature::Xz => String::from_str("xz"),
            CompressionSignature::Zstd => String::from_str("zstd"),
            CompressionSignature::Tar => String::from_str("tar"),
            CompressionSignature::Pkzip => String::from_str("zip"),
            CompressionSignature::TarzLZW => String::from_str("tar(LZW)"),
            CompressionSignature::TarzLZH => String::from_str("tar(LZH)"),
            CompressionSignature::SevenZ => String::from_str("7z"),
            CompressionSignature::Lzh0 => String::from_str("lzh method 0"),
            CompressionSignature::Lzh5 => String::from_str("lzh method 5"),
            CompressionSignature::Bzip2 => String::from_str("Bzip2"),
            CompressionSignature::Rnc1 => String::from_str("rnc ver.1"),
            CompressionSignature::Rnc2 => String::from_str("rnc ver.2"),
            CompressionSignature::Lzip => String::from_str("lzip"),
            CompressionSignature::Rar1 => String::from_str("rar v1.50"),
            CompressionSignature::Rar5 => String::from_str("rar v5.00"),
            CompressionSignature::SzddQuantum => String::from_str("Quantum"),
            CompressionSignature::Rsvkdata => String::from_str("QuickZip rs"),
            CompressionSignature::Ace => String::from_str("ACE"),
            CompressionSignature::Kwaj => String::from_str("KWAJ"),
            CompressionSignature::Szdd9x => String::from_str("SZDD"),
            CompressionSignature::Isz => String::from_str("ISO"),
            CompressionSignature::Draco => String::from_str("Google Draco"),
            CompressionSignature::Slob => String::from_str("Slob"),
            CompressionSignature::DCMPa30 => String::from_str("Binary Delta"),
            CompressionSignature::Pa30 => String::from_str("Binary Delta"),
            CompressionSignature::Lzfse => String::from_str("LZFSE"),
            CompressionSignature::Zlib(_) => String::from_str("zlib"),
            CompressionSignature::NonArchived => String::from_str("Non archived"),
        }
    }
}

/// Whether `b` holds a tar header: at least 265 bytes, with a `ustar` mark at offset 257.
pub open spec fn spec_is_tar(b: Seq<u8>) -> bool {
    b.len() >= 265 && (slice_is(b, 257, 265, HEADER_TAR1@) || slice_is(b, 257, 265, HEADER_TAR2@))
}

pub fn is_tar(b: &[u8]) -> (r: bool)
    ensures
        r == spec_is_tar(b@),
{
    b.len() >= 265 && (slice_eq(b, 257, 265, &HEADER_TAR1) || slice_eq(b, 257, 265, &HEADER_TAR2))
}

/// The format that the first bytes `b` of a file (all of it, or its first 265
/// bytes) announce. A signature longer than `b` does not match, so a short file
/// is compared only on the bytes it has.
pub open spec fn spec_compression_signature(b: Seq<u8>) -> CompressionSignature {
    if slice_is(b, 0, 2, HEADER_GZIP@) {
        CompressionSignature::Gzip
    } else if slice_is(b, 0, 6, HEADER_XZ@) {
        CompressionSignature::Xz
    } else if slice_is(b, 0, 4, HEADER_ZSTD@) {
        CompressionSignature::Zstd
    } else if slice_is(b, 0, 4, HEADER_PKZIP@) {
        CompressionSignature::Pkzip
    } else if slice_is(b, 0, 2, HEADER_TARZ_LZW@) {
        CompressionSignature::TarzLZW
    } else if slice_is(b, 0, 2, HEADER_TARZ_LZH@) {
        CompressionSignature::TarzLZH
    } else if slice_is(b, 0, 6, HEADER_SEVENZ@) {
        CompressionSignature::SevenZ
    } else if slice_is(b, 0, 5, HEADER_LZH0@) {
        CompressionSignature::Lzh0
    } else if slice_is(b, 0, 5, HEADER_LZH5@) {
        CompressionSignature::Lzh5
    } else if slice_is(b, 0, 3, HEADER_BZ2@) {
        CompressionSignature::Bzip2
    } else if slice_is(b, 0, 4, HEADER_RNC1@) {
        CompressionSignature::Rnc1
    } else if slice_is(b, 0, 4, HEADER_RNC2@) {
        CompressionSignature::Rnc2
    } else if slice_is(b, 0, 7, HEADER_RAR1@) {
        CompressionSignature::Rar1
    } else if slice_is(b, 0, 4, HEADER_LZIP@) {
        CompressionSignature::Lzip
    } else if slice_is(b, 0, 8, HEADER_RAR5@) {
        CompressionSignature::Rar5
    } else if slice_is(b, 0, 8, HEADER_SZDDQUANTUM@) {
        CompressionSignature::SzddQuantum
    } else if slice_is(b, 0, 8, HEADER_RSVKDATA@) {
        CompressionSignature::Rsvkdata
    } else if slice_is(b, 0, 7, HEADER_ACE@) {
        CompressionSignature::Ace
    } else if slice_is(b, 0, 4, HEADER_KWAJ@) {
        CompressionSignature::Kwaj
    } else if slice_is(b, 0, 4, HEADER_SZDD9X@) {
        CompressionSignature::Szdd9x
    } else if slice_is(b, 0, 4, HEADER_ISZ@) {
        CompressionSignature::Isz
    } else if slice_is(b, 0, 5, HEADER_DRACO@) {
        CompressionSignature::Draco
    } else if slice_is(b, 0, 8, HEADER_SLOB@) {
        CompressionSignature::Slob
    } else if slice_is(b, 0, 8, HEADER_DCMPA30@) {
        CompressionSignature::DCMPa30
    } else if slice_is(b, 0, 4, HEADER_PA30@) {
        CompressionSignature::Pa30
    } else if slice_is(b, 0, 4, HEADER_LZFSE@) {
        CompressionSignature::Lzfse
    } else if slice_is(b, 0, 2, HEADER_ZLIB_NO_COMPRESSION_WITHOUT_PRESET@) {
        CompressionSignature::Zlib(ZlibCompression::NoCompressionWithoutPreset)
    } else if slice_is(b, 0, 2, HEADER_ZLIB_DEFAULT_COMPRESSION_WITHOUT_PRESET@) {
        CompressionSignature::Zlib(ZlibCompression::DefaultCompressionWithoutPreset)
    } else if slice_is(b, 0, 2, HEADER_ZLIB_BEST_SPEED_WITHOUT_PRESET@) {
        CompressionSignature::Zlib(ZlibCompression::BestSpeedWithoutPreset)
    } else if slice_is(b, 0, 2, HEADER_ZLIB_BEST_COMPRESSION_WITHOUT_PRESET@) {
        CompressionSignature::Zlib(ZlibCompression::BestCompressionWithoutPreset)
    } else if slice_is(b, 0, 2, HEADER_ZLIB_NO_COMPRESSION_WITH_PRESET@) {
        CompressionSignature::Zlib(ZlibCompression::NoCompressionWithPreset)
    } else if slice_is(b, 0, 2, HEADER_ZLIB_DEFAULT_COMPRESSION_WITH_PRESET@) {
        CompressionSignature::Zlib(ZlibCompression::DefaultCompressionWithPreset)
    } else if slice_is(b, 0, 2, HEADER_ZLIB_BEST_SPEED_WITH_PRESET@) {
        CompressionSignature::Zlib(ZlibCompression::BestSpeedWithPreset)
    } else if slice_is(b, 0, 2, HEADER_ZLIB_BEST_COMPRESSION_WITH_PRESET@) {
        CompressionSignature::Zlib(ZlibCompression::BestCompressionWithPreset)
    } else if spec_is_tar(b) {
        CompressionSignature::Tar
    } else {
        CompressionSignature::NonArchived
    }
}

/// The format that the first bytes of a file announce.
pub fn inspect_compression(buffer: &[u8]) -> (r: CompressionSignature)
    ensures
        r == spec_compression_signature(buffer@),
{
    if starts_with(buffer, &HEADER_GZIP) {
        CompressionSignature::Gzip
    } else if starts_with(buffer, &HEADER_XZ) {
        CompressionSignature::Xz
    } else if starts_with(buffer, &HEADER_ZSTD) {
        CompressionSignature::Zstd
    } else if starts_with(buffer, &HEADER_PKZIP) {
        CompressionSignature::Pkzip
    } else if starts_with(buffer, &HEADER_TARZ_LZW) {
        CompressionSignature::TarzLZW
    } else if starts_with(buffer, &HEADER_TARZ_LZH) {
        CompressionSignature::TarzLZH
    } else if starts_with(buffer, &HEADER_SEVENZ) {
        CompressionSignature::SevenZ
    } else if starts_with(buffer, &HEADER_LZH0) {
        CompressionSignature::Lzh0
    } else if starts_with(buffer, &HEADER_LZH5) {
        CompressionSignature::Lzh5
    } else if starts_with(buffer, &HEADER_BZ2) {
        CompressionSignature::Bzip2
    } else if starts_with(buffer, &HEADER_RNC1) {
        CompressionSignature::Rnc1
    } else if starts_with(buffer, &HEADER_RNC2) {
        CompressionSignature::Rnc2
    } else if starts_with(buffer, &HEADER_RAR1) {
        CompressionSignature::Rar1
    } else if starts_with(buffer, &HEADER_LZIP) {
        CompressionSignature::Lzip
    } else if starts_with(buffer, &HEADER_RAR5) {
        CompressionSignature::Rar5
    } else if starts_with(buffer, &HEADER_SZDDQUANTUM) {
        CompressionSignature::SzddQuantum
    } else if starts_with(buffer, &HEADER_RSVKDATA) {
        CompressionSignature::Rsvkdata
    } else if starts_with(buffer, &HEADER_ACE) {
        CompressionSignature::Ace
    } else if starts_with(buffer, &HEADER_KWAJ) {
        CompressionSignature::Kwaj
    } else if starts_with(buffer, &HEADER_SZDD9X) {
        CompressionSignature::Szdd9x
    } else if starts_with(buffer, &HEADER_ISZ) {
        CompressionSignature::Isz
    } else if starts_with(buffer, &HEADER_DRACO) {
        CompressionSignature::Draco
    } else if starts_with(buffer, &HEADER_SLOB) {
        CompressionSignature::Slob
    } else if starts_with(buffer, &HEADER_DCMPA30) {
        CompressionSignature::DCMPa30
    } else if starts_with(buffer, &HEADER_PA30) {
        CompressionSignature::Pa30
    } else if starts_with(buffer, &HEADER_LZFSE) {
        CompressionSignature::Lzfse
    } else if starts_with(buffer, &HEADER_ZLIB_NO_COMPRESSION_WITHOUT_PRESET) {
        CompressionSignature::Zlib(ZlibCompression::NoCompressionWithoutPreset)
    } else if starts_with(buffer, &HEADER_ZLIB_DEFAULT_COMPRESSION_WITHOUT_PRESET) {
        CompressionSignature::Zlib(ZlibCompression::DefaultCompressionWithoutPreset)
    } else if starts_with(buffer, &HEADER_ZLIB_BEST_SPEED_WITHOUT_PRESET) {
        CompressionSignature::Zlib(ZlibCompression::BestSpeedWithoutPreset)
    } else if starts_with(buffer, &HEADER_ZLIB_BEST_COMPRESSION_WITHOUT_PRESET) {
        CompressionSignature::Zlib(ZlibCompression::BestCompressionWithoutPreset)
    } else if starts_with(buffer, &HEADER_ZLIB_NO_COMPRESSION_WITH_PRESET) {
        CompressionSignature::Zlib(ZlibCompression::NoCompressionWithPreset)
    } else if starts_with(buffer, &HEADER_ZLIB_DEFAULT_COMPRESSION_WITH_PRESET) {
        CompressionSignature::Zlib(ZlibCompression::DefaultCompressionWithPreset)
    } else if starts_with(buffer, &HEADER_ZLIB_BEST_SPEED_WITH_PRESET) {
        CompressionSignature::Zlib(ZlibCompression::BestSpeedWithPreset)
    } else if starts_with(buffer, &HEADER_ZLIB_BEST_COMPRESSION_WITH_PRESET) {
        CompressionSignature::Zlib(ZlibCompression::BestCompressionWithPreset)
    } else if is_tar(buffer) {
        CompressionSignature::Tar
    } else {
        CompressionSignature::NonArchived
    }
}

/// What is read of a file to recognize its format: all of it when it is shorter
/// than 265 bytes, otherwise its first 265 bytes.
pub open spec fn inspected(data: Seq<u8>) -> Seq<u8> {
    if data.len() < 265 {
        data
    } else {
        data.subrange(0, 265)
    }
}

/// What `flate2`'s gzip decoder makes of `data`: the decoded bytes, or the message
/// of the error it stops with.
pub uninterp spec fn gzip_decoded(data: Seq<u8>) -> Result<Seq<u8>, Seq<char>>;

/// What `lzma_rs::xz_decompress` makes of `data`: the decoded bytes, or `None` on error.
pub uninterp spec fn xz_decoded(data: Seq<u8>) -> Option<Seq<u8>>;

/// What `zstd::stream::decode_all` makes of `data`: the decoded bytes, or `None` on error.
pub uninterp spec fn zstd_decoded(data: Seq<u8>) -> Option<Seq<u8>>;

/// `flate2::bufread::GzDecoder` read to the end: the decoded bytes or the error's message.
#[verifier::external_body]
fn gunzip(data: &[u8]) -> (r: Result<Vec<u8>, String>)
    ensures
        match r {
            Ok(v) => gzip_decoded(data@) == Ok::<Seq<u8>, Seq<char>>(v@),
            Err(m) => gzip_decoded(data@) == Err::<Seq<u8>, Seq<char>>(m@),
        },
{
    let mut decoder = flate2::bufread::GzDecoder::new(data);
    let mut out: Vec<u8> = Vec::new();
    match std::io::Read::read_to_end(&mut decoder, &mut out) {
        Ok(_) => Ok(out),
        Err(e) => Err(e.to_string()),
    }
}

/// `lzma_rs::xz_decompress` into a vector: the decoded bytes, or `None` on error.
#[verifier::external_body]
fn unxz(data: &[u8]) -> (r: Option<Vec<u8>>)
    ensures
        match r {
            Some(v) => xz_decoded(data@) == Some(v@),
            None => xz_decoded(data@) is None,
        },
{
    let mut input = data;
    let mut out: Vec<u8> = Vec::new();
    match lzma_rs::xz_decompress(&mut input, &mut out) {
        Ok(()) => Some(out),
        Err(_) => None,
    }
}

/// `zstd::stream::decode_all`: the decoded bytes, or `None` on error.
#[verifier::external_body]
fn unzstd(data: &[u8]) -> (r: Option<Vec<u8>>)
    ensures
        match r {
            Some(v) => zstd_decoded(data@) == Some(v@),
            None => zstd_decoded(data@) is None,
        },
{
    zstd::stream::decode_all(data).ok()
}

/// What unpacking leaves to be done on the file system.
#[derive(Debug)]
pub enum UnpackAction {
    /// Write these bytes to the destination file.
    WriteFile(Vec<u8>),
    /// Extract this tar archive into the destination directory.
    ExtractTar(Vec<u8>),
    /// Extract the zip archive (the file itself) into the destination directory.
    ExtractZip,
}

/// Decoded bytes are extracted when they are a tar archive, written out otherwise.
pub open spec fn is_action_for(a: UnpackAction, v: Seq<u8>) -> bool {
    if spec_is_tar(v) {
        a matches UnpackAction::ExtractTar(w) && w@ == v
    } else {
        a matches UnpackAction::WriteFile(w) && w@ == v
    }
}

/// Whether unpacking `data` goes through without a panic: xz and zstd data
/// decode.
pub open spec fn unpack_defined(data: Seq<u8>) -> bool {
    &&& spec_compression_signature(inspected(data)) == CompressionSignature::Xz ==> xz_decoded(data) is Some
    &&& spec_compression_signature(inspected(data)) == CompressionSignature::Zstd ==> zstd_decoded(data) is Some
}

/// The outcome of unpacking a file whose contents are `data`.
pub open spec fn is_unpack_result(data: Seq<u8>, r: Result<UnpackAction, FxError>) -> bool {
    match spec_compression_signature(inspected(data)) {
        CompressionSignature::Gzip => match gzip_decoded(data) {
            Ok(v) => r matches Ok(a) && is_action_for(a, v),
            Err(m) => r matches Err(FxError::Io(s)) && s@ == m,
        },
        CompressionSignature::Xz => r matches Ok(a) && is_action_for(a, xz_decoded(data).unwrap()),
        CompressionSignature::Zstd => r matches Ok(a) && is_action_for(a, zstd_decoded(data).unwrap()),
        CompressionSignature::Tar => r matches Ok(UnpackAction::ExtractTar(v)) && v@ == data,
        CompressionSignature::Pkzip => r matches Ok(UnpackAction::ExtractZip),
        CompressionSignature::NonArchived => r matches Err(FxError::Unpack(s)) && s@ == "Seems not an archive file."@,
        other => r matches Err(FxError::Unpack(s)) && s@ == "Cannot unpack this type: "@ + spec_signature_name(other),
    }
}

fn action_for(v: Vec<u8>) -> (a: UnpackAction)
    ensures
        is_action_for(a, v@),
{
    if is_tar(&v) {
        UnpackAction::ExtractTar(v)
    } else {
        UnpackAction::WriteFile(v)
    }
}

fn head(data: &[u8]) -> (r: &[u8])
    ensures
        r@ == inspected(data@),
{
    if data.len() < 265 {
        data
    } else {
        let (h, _) = data.split_at(265);
        h
    }
}

/// Unpack a file whose contents are `data`: what to write or extract, or why not.
pub fn unpack(data: &[u8]) -> (r: Result<UnpackAction, FxError>)
    requires
        unpack_defined(data@),
    ensures
        is_unpack_result(data@, r),
{
    match try_unpack(data) {
        Some(r) => r,
        None => {
            assert(false);
            Err(FxError::Unpack(String::new()))
        },
    }
}

/// Unpack `data` where that goes through; `None` exactly where it would panic
/// (xz or zstd data that does not decode). Each decoder runs once.
pub fn try_unpack(data: &[u8]) -> (r: Option<Result<UnpackAction, FxError>>)
    ensures
        r is None <==> !unpack_defined(data@),
        r matches Some(x) ==> is_unpack_result(data@, x),
{
    let sign = inspect_compression(head(data));
    match sign {
        CompressionSignature::Gzip => match gunzip(data) {
            Ok(v) => Some(Ok(action_for(v))),
            Err(m) => Some(Err(FxError::Io(m))),
        },
        CompressionSignature::Xz => match unxz(data) {
            Some(v) => Some(Ok(action_for(v))),
            None => None,
        },
        CompressionSignature::Zstd => match unzstd(data) {
            Some(v) => Some(Ok(action_for(v))),
            None => None,
        },
        CompressionSignature::Tar => Some(Ok(UnpackAction::ExtractTar(vstd::slice::slice_to_vec(data)))),
        CompressionSignature::Pkzip => Some(Ok(UnpackAction::ExtractZip)),
        CompressionSignature::NonArchived => Some(Err(FxError::Unpack(String::from_str("Seems not an archive file.")))),
        _ => {
            let mut m = String::from_str("Cannot unpack this type: ");
            let name = sign.name();
            push_str(&mut m, name.as_str());
            Some(Err(FxError::Unpack(m)))
        },
    }
}

/// The two tar marks at offset 257: POSIX `ustar\0` followed by `00`, and
/// GNU tar's `ustar  \0`.
pub open spec fn tar_mark(b: Seq<u8>) -> bool {
    ||| b.subrange(257, 265) == seq![0x75u8, 0x73u8, 0x74u8, 0x61u8, 0x72u8, 0x00u8, 0x30u8, 0x30u8]
    ||| b.subrange(257, 265) == seq![0x75u8, 0x73u8, 0x74u8, 0x61u8, 0x72u8, 0x20u8, 0x20u8, 0x00u8]
}

/// Bytes of at least 265 with either tar mark at offset 257 are a tar header.
pub proof fn law_tar_marks(b: Seq<u8>)
    requires
        b.len() >= 265,
        tar_mark(b),
    ensures
        spec_is_tar(b),
{
}

/// A tar archive (either mark) is extracted whole when unpacked, provided its
/// first byte starts no other format's signature: here a lower-case letter
/// other than `b` and `x` (the first byte of a file name, as in most archives).
pub proof fn law_unpack_plain_tar(data: Seq<u8>, r: Result<UnpackAction, FxError>)
    requires
        data.len() >= 265,
        tar_mark(data),
        0x61 <= data[0] <= 0x7A && data[0] != 0x62 && data[0] != 0x78,
        is_unpack_result(data, r),
    ensures
        r matches Ok(UnpackAction::ExtractTar(w)) && w@ == data,
{
    let h = inspected(data);
    assert(h == data.subrange(0, 265));
    assert(h[0] == data[0]);
    assert(h.subrange(257, 265) == data.subrange(257, 265));
    assert(spec_compression_signature(h) == CompressionSignature::Tar);
}

/// Gzip data (magic `1F 8B`) whose decoded bytes are a tar archive (either
/// mark) is extracted as tar, not written out as one file.
pub proof fn law_unpack_gzipped_tar(data: Seq<u8>, v: Seq<u8>, r: Result<UnpackAction, FxError>)
    requires
        data.len() >= 2,
        data[0] == 0x1F && data[1] == 0x8B,
        gzip_decoded(data) == Ok::<Seq<u8>, Seq<char>>(v),
        v.len() >= 265,
        tar_mark(v),
        is_unpack_result(data, r),
    ensures
        r matches Ok(UnpackAction::ExtractTar(w)) && w@ == v,
{
    let h = inspected(data);
    assert(h.subrange(0, 2) == data.subrange(0, 2));
    assert(h.subrange(0, 2) =~= seq![0x1Fu8, 0x8Bu8]);
    assert(spec_compression_signature(h) == CompressionSignature::Gzip);
}

/// Gzip data whose decoded bytes are no tar archive (too short for a header,
/// or no tar mark) is written out as one file holding the decoded bytes.
pub proof fn law_unpack_gzipped_file(data: Seq<u8>, v: Seq<u8>, r: Result<UnpackAction, FxError>)
    requires
        data.len() >= 2,
        data[0] == 0x1F && data[1] == 0x8B,
        gzip_decoded(data) == Ok::<Seq<u8>, Seq<char>>(v),
        v.len() < 265 || !tar_mark(v),
        is_unpack_result(data, r),
    ensures
        r matches Ok(UnpackAction::WriteFile(w)) && w@ == v,
{
    let h = inspected(data);
    assert(h.subrange(0, 2) == data.subrange(0, 2));
    assert(h.subrange(0, 2) =~= seq![0x1Fu8, 0x8Bu8]);
    assert(spec_compression_signature(h) == CompressionSignature::Gzip);
    if v.len() >= 265 {
        assert(HEADER_TAR1@ =~= seq![0x75u8, 0x73u8, 0x74u8, 0x61u8, 0x72u8, 0x00u8, 0x30u8, 0x30u8]);
        assert(HEADER_TAR2@ =~= seq![0x75u8, 0x73u8, 0x74u8, 0x61u8, 0x72u8, 0x20u8, 0x20u8, 0x00u8]);
    }
}

} // verus!
