//! Recognizing an image's format from its first bytes.

use vstd::prelude::*;

verus! {

/// The image formats that can be recognized.
#[derive(Clone, Copy, Debug, PartialEq, Eq, Structural)]
pub enum ImageType {
    Jpeg,
    Jp2,
    Png,
    Bmp,
    Pdf,
    Eps,
}

/// `data` starts with `sig`.
pub open spec fn starts_with(data: Seq<u8>, sig: Seq<u8>) -> bool {
    sig.len() <= data.len() && data.subrange(0, sig.len() as int) == sig
}

/// The header of a PDF file up to its minor version: `%PDF-1.`.
pub open spec fn pdf_sig() -> Seq<u8> {
    seq![37u8, 80, 68, 70, 45, 49, 46]
}

/// The format that the first bytes show, tried in the order JPEG, JPEG 2000,
/// PNG, BMP, PDF (versions 1.0 to 1.5), PostScript.
pub open spec fn image_type_of(data: Seq<u8>) -> Option<ImageType> {
    if starts_with(data, seq![0xffu8, 0xd8]) {
        Some(ImageType::Jpeg)
    } else if starts_with(data, seq![0x00u8, 0x00, 0x00, 0x0c, 0x6a, 0x50, 0x20, 0x20, 0x0d, 0x0a, 0x87, 0x0a]) {
        Some(ImageType::Jp2)
    } else if starts_with(data, seq![137u8, 80, 78, 71, 13, 10, 26, 10]) {
        Some(ImageType::Png)
    } else if starts_with(data, seq![66u8, 77]) {
        Some(ImageType::Bmp)
    } else if starts_with(data, pdf_sig()) && data.len() > 7 && 48 <= data[7] <= 53 {
        Some(ImageType::Pdf)
    } else if starts_with(data, seq![37u8, 33]) {
        Some(ImageType::Eps)
    } else {
        None
    }
}

fn has_prefix(data: &[u8], sig: &[u8]) -> (r: bool)
    ensures
        r == starts_with(data@, sig@),
{
    if sig.len() > data.len() {
        return false;
    }
    let mut i: usize = 0;
    while i < sig.len()
        invariant
            sig@.len() <= data@.len(),
            i <= sig@.len(),
            forall|k: int| 0 <= k < i ==> data@[k] == sig@[k],
        decreases sig@.len() - i,
    {
        if data[i] != sig[i] {
            assert(data@.subrange(0, sig@.len() as int)[i as int] != sig@[i as int]);
            return false;
        }
        i = i + 1;
    }
    assert(data@.subrange(0, sig@.len() as int) =~= sig@);
    true
}

/// The format of an image, from its first bytes.
pub fn source_image_type(data: &[u8]) -> (r: Option<ImageType>)
    ensures
        r == image_type_of(data@),
{
    let jpeg: [u8; 2] = [0xff, 0xd8];
    let jp2: [u8; 12] = [0x00, 0x00, 0x00, 0x0c, 0x6a, 0x50, 0x20, 0x20, 0x0d, 0x0a, 0x87, 0x0a];
    let png: [u8; 8] = [137, 80, 78, 71, 13, 10, 26, 10];
    let bmp: [u8; 2] = [66, 77];
    let pdf: [u8; 7] = [37, 80, 68, 70, 45, 49, 46];
    let eps: [u8; 2] = [37, 33];
    assert(jpeg@ =~= seq![0xffu8, 0xd8]);
    assert(jp2@ =~= seq![0x00u8, 0x00, 0x00, 0x0c, 0x6a, 0x50, 0x20, 0x20, 0x0d, 0x0a, 0x87, 0x0a]);
    assert(png@ =~= seq![137u8, 80, 78, 71, 13, 10, 26, 10]);
    assert(bmp@ =~= seq![66u8, 77]);
    assert(pdf@ =~= pdf_sig());
    assert(eps@ =~= seq![37u8, 33]);
    if has_prefix(data, &jpeg) {
        return Some(ImageType::Jpeg);
    }
    if has_prefix(data, &jp2) {
        return Some(ImageType::Jp2);
    }
    if has_prefix(data, &png) {
        return Some(ImageType::Png);
    }
    if has_prefix(data, &bmp) {
        return Some(ImageType::Bmp);
    }
    if has_prefix(data, &pdf) && data.len() > 7 && 48 <= data[7] && data[7] <= 53 {
        return Some(ImageType::Pdf);
    }
    if has_prefix(data, &eps) {
        return Some(ImageType::Eps);
    }
    None
}

} // verus!
