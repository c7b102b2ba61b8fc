use felix::magic_image::{inspect_image, is_supported_image_type, ImageSignature};
use felix::magic_packed::{
    inspect_compression, is_tar, try_unpack, unpack, CompressionSignature,
    UnpackAction,
};
use felix::magicbytes::{inspect_signatures, Signature};
use felix::errors::FxError;
use std::io::Write;

fn header(prefix: &[u8], len: usize) -> Vec<u8> {
    let mut v = prefix.to_vec();
    v.resize(len, 0x41);
    v
}

fn tar_bytes() -> Vec<u8> {
    let mut v = vec![0x61u8; 512];
    v[257..265].copy_from_slice(&[0x75, 0x73, 0x74, 0x61, 0x72, 0x00, 0x30, 0x30]);
    v
}

#[test]
/// Supported:
/// jpg, png, gif, webp, tif, bmp, ico, hdr, exr, pbm, pgm, ppm
fn test_inspect_image() {
    let jpg = header(&[0xff, 0xd8, 0xff, 0xe0], 12);
    assert_eq!(ImageSignature::Jpg, inspect_image(&jpg));
    let png = header(&[0x89, 0x50, 0x4E, 0x47, 0x0D, 0x0A, 0x1A, 0x0A], 12);
    assert_eq!(ImageSignature::Png, inspect_image(&png));
    let gif = header(b"GIF89a", 12);
    assert_eq!(ImageSignature::Gif, inspect_image(&gif));
    let webp = b"RIFF\x24\x00\x00\x00WEBP".to_vec();
    assert_eq!(ImageSignature::Webp, inspect_image(&webp));
    // other RIFF files (WAV, AVI) are no WebP images
    let wav = b"RIFF\x24\x00\x00\x00WAVE".to_vec();
    assert_eq!(ImageSignature::NotSupported, inspect_image(&wav));
    let tif = header(&[0x49, 0x49, 0x2A, 0x00], 12);
    assert_eq!(ImageSignature::Tif, inspect_image(&tif));
    let bmp = header(b"BM", 12);
    assert_eq!(ImageSignature::Bmp, inspect_image(&bmp));
    let ico = header(&[0x00, 0x00, 0x01, 0x00], 12);
    assert_eq!(ImageSignature::Ico, inspect_image(&ico));
    let hdr = header(b"#?RADIANCE\n", 12);
    assert_eq!(ImageSignature::Hdr, inspect_image(&hdr));
    let exr = header(&[0x76, 0x2F, 0x31, 0x01], 12);
    assert_eq!(ImageSignature::Exr, inspect_image(&exr));
    let pbm = header(b"P1\n", 12);
    assert_eq!(ImageSignature::Pbm, inspect_image(&pbm));
    let pgm = header(b"P5\n", 12);
    assert_eq!(ImageSignature::Pgm, inspect_image(&pgm));
    let ppm = header(b"P6\n", 12);
    assert_eq!(ImageSignature::Ppm, inspect_image(&ppm));
}

#[test]
fn image_type_needs_twelve_bytes() {
    assert!(is_supported_image_type(&header(b"BM", 12)));
    assert!(!is_supported_image_type(b"BM"));
    assert!(!is_supported_image_type(&header(b"hello", 12)));
}

#[test]
fn test_inspect_signatures() {
    assert_eq!(Signature::Gzip, inspect_signatures(&header(&[0x1F, 0x8B], 265)));
    assert_eq!(
        Signature::Xz,
        inspect_signatures(&header(&[0xFD, 0x37, 0x7A, 0x58, 0x5A, 0x00], 265))
    );
    assert_eq!(
        Signature::Zstd,
        inspect_signatures(&header(&[0x28, 0xB5, 0x2F, 0xFD], 265))
    );
    assert_eq!(Signature::Bzip2, inspect_signatures(&header(b"BZh", 265)));
    let tar = tar_bytes();
    assert_eq!(Signature::Tar, inspect_signatures(&tar[..265]));
    assert_eq!(
        Signature::Pkzip,
        inspect_signatures(&header(&[0x50, 0x4b, 0x03, 0x04], 265))
    );
}

#[test]
fn test_inspect_signature_bz2() {
    let data = header(b"BZh91AY&SY", 300);
    assert_eq!(CompressionSignature::Bzip2, inspect_compression(&data[..265]));
    match unpack(&data) {
        Err(FxError::Unpack(m)) => assert_eq!(m, "Cannot unpack this type: Bzip2"),
        other => panic!("unexpected {:?}", other),
    }
}

#[test]
fn unpack_gzip_through_the_decoder() {
    let mut enc = flate2::write::GzEncoder::new(Vec::new(), flate2::Compression::default());
    enc.write_all(b"hello felix").unwrap();
    let gz = enc.finish().unwrap();
    match unpack(&gz) {
        Ok(UnpackAction::WriteFile(v)) => assert_eq!(v, b"hello felix".to_vec()),
        other => panic!("unexpected {:?}", other),
    }
}

#[test]
fn unpack_broken_gzip_is_io_error() {
    let broken = vec![0x1F, 0x8B, 0x00, 0x00, 0x01];
    assert!(matches!(unpack(&broken), Err(FxError::Io(_))));
}

#[test]
fn unpack_xz_and_zstd() {
    let mut xz = Vec::new();
    lzma_rs::xz_compress(&mut &b"xz payload"[..], &mut xz).unwrap();
    match unpack(&xz) {
        Ok(UnpackAction::WriteFile(v)) => assert_eq!(v, b"xz payload".to_vec()),
        other => panic!("unexpected {:?}", other),
    }
    let zst = zstd::stream::encode_all(&b"zstd payload"[..], 0).unwrap();
    match unpack(&zst) {
        Ok(UnpackAction::WriteFile(v)) => assert_eq!(v, b"zstd payload".to_vec()),
        other => panic!("unexpected {:?}", other),
    }
}

#[test]
fn try_unpack_refuses_what_would_panic() {
    // a file shorter than every header is compared on the bytes it has
    assert!(matches!(try_unpack(&[0x00]), Some(Err(FxError::Unpack(_)))));
    // an xz header that does not decode
    assert!(try_unpack(&header(&[0xFD, 0x37, 0x7A, 0x58, 0x5A, 0x00], 40)).is_none());
}

#[test]
fn unpack_tar_zip_and_plain() {
    let tar = tar_bytes();
    assert!(is_tar(&tar));
    match unpack(&tar) {
        Ok(UnpackAction::ExtractTar(v)) => assert_eq!(v, tar),
        other => panic!("unexpected {:?}", other),
    }
    assert!(matches!(
        unpack(&header(&[0x50, 0x4b, 0x03, 0x04], 300)),
        Ok(UnpackAction::ExtractZip)
    ));
    match unpack(&header(b"plain text file", 300)) {
        Err(FxError::Unpack(m)) => assert_eq!(m, "Seems not an archive file."),
        other => panic!("unexpected {:?}", other),
    }
}

#[test]
fn short_files_are_not_archives() {
    assert_eq!(CompressionSignature::NonArchived, inspect_compression(b"abc"));
    assert_eq!(CompressionSignature::NonArchived, inspect_compression(b""));
    // a two-byte gzip magic is recognized even in a file of two bytes
    assert_eq!(CompressionSignature::Gzip, inspect_compression(&[0x1F, 0x8B]));
    match unpack(b"abc") {
        Err(FxError::Unpack(m)) => assert_eq!(m, "Seems not an archive file."),
        other => panic!("unexpected {:?}", other),
    }
}

#[test]
fn lzh_headers_are_recognized() {
    assert_eq!(CompressionSignature::Lzh0, inspect_compression(b"-hl0-xyz"));
    assert_eq!(CompressionSignature::Lzh5, inspect_compression(b"-hl5-"));
    assert_eq!(Signature::Lzh5, inspect_signatures(&header(b"-hl5-", 265)));
}
