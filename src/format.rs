//! Resource formats, their candidate extensions, and the shape of names.

use vstd::prelude::*;

verus! {

/// The kinds of resources that an engine asks for.
#[derive(Clone, Copy, Debug, PartialEq, Eq, Structural)]
pub enum FileFormat {
    AFM,
    Bib,
    Bst,
    Cmap,
    Enc,
    Format,
    FontMap,
    MiscFonts,
    Ofm,
    OpenType,
    Ovf,
    Pict,
    Pk,
    ProgramData,
    Sfd,
    Tex,
    TexPsHeader,
    TFM,
    TrueType,
    Type1,
    Vf,
}

/// The extensions tried, in order, for a name of format `f` that has none.
pub open spec fn format_extensions(f: FileFormat) -> Seq<Seq<u8>> {
    match f {
        FileFormat::AFM => seq![seq![97u8, 102, 109]],  // afm
        FileFormat::Bib => seq![seq![98, 105, 98]],  // bib
        FileFormat::Bst => seq![seq![98, 115, 116]],  // bst
        FileFormat::Cmap => seq![seq![99, 109, 97, 112]],  // cmap
        FileFormat::Enc => seq![seq![101, 110, 99]],  // enc
        FileFormat::Format => seq![seq![102, 109, 116]],  // fmt
        FileFormat::FontMap => seq![seq![109, 97, 112]],  // map
        FileFormat::MiscFonts => seq![seq![109, 105, 115, 99, 102, 111, 110, 116, 115]],  // miscfonts
        FileFormat::Ofm => seq![seq![111, 102, 109]],  // ofm
        FileFormat::OpenType => seq![seq![111, 116, 102], seq![79, 84, 70]],  // otf OTF
        FileFormat::Ovf => seq![seq![111, 118, 102], seq![118, 102]],  // ovf vf
        FileFormat::Pict => seq![
            seq![112, 100, 102],  // pdf
            seq![106, 112, 103],  // jpg
            seq![101, 112, 115],  // eps
            seq![101, 112, 115, 105],  // epsi
        ],
        FileFormat::Pk => seq![seq![112, 107]],  // pk
        FileFormat::ProgramData => seq![
            seq![112, 114, 111, 103, 114, 97, 109, 100, 97, 116, 97],  // programdata
        ],
        FileFormat::Sfd => seq![seq![115, 102, 100]],  // sfd
        FileFormat::Tex => seq![
            seq![116, 101, 120],  // tex
            seq![115, 116, 121],  // sty
            seq![99, 108, 115],  // cls
            seq![102, 100],  // fd
            seq![97, 117, 120],  // aux
            seq![98, 98, 108],  // bbl
            seq![100, 101, 102],  // def
            seq![99, 108, 111],  // clo
            seq![108, 100, 102],  // ldf
        ],
        FileFormat::TexPsHeader => seq![seq![112, 114, 111]],  // pro
        FileFormat::TFM => seq![seq![116, 102, 109]],  // tfm
        FileFormat::TrueType => seq![
            seq![116, 116, 102],  // ttf
            seq![116, 116, 99],  // ttc
            seq![84, 84, 70],  // TTF
            seq![84, 84, 67],  // TTC
            seq![100, 102, 111, 110, 116],  // dfont
        ],
        FileFormat::Type1 => seq![seq![112, 102, 97], seq![112, 102, 98]],  // pfa pfb
        FileFormat::Vf => seq![seq![118, 102]],  // vf
    }
}

/// Views a list of byte strings as a sequence of sequences.
pub open spec fn byte_strings(v: Seq<Vec<u8>>) -> Seq<Seq<u8>> {
    v.map_values(|s: Vec<u8>| s@)
}

/// The candidate extensions of `format`, in the order in which they are tried.
pub fn format_to_extension(format: FileFormat) -> (r: Vec<Vec<u8>>)
    ensures
        byte_strings(r@) == format_extensions(format),
{
    let r = match format {
        FileFormat::AFM => vec![vec![97, 102, 109]],  // afm
        FileFormat::Bib => vec![vec![98, 105, 98]],  // bib
        FileFormat::Bst => vec![vec![98, 115, 116]],  // bst
        FileFormat::Cmap => vec![vec![99, 109, 97, 112]],  // cmap
        FileFormat::Enc => vec![vec![101, 110, 99]],  // enc
        FileFormat::Format => vec![vec![102, 109, 116]],  // fmt
        FileFormat::FontMap => vec![vec![109, 97, 112]],  // map
        FileFormat::MiscFonts => vec![vec![109, 105, 115, 99, 102, 111, 110, 116, 115]],  // miscfonts
        FileFormat::Ofm => vec![vec![111, 102, 109]],  // ofm
        FileFormat::OpenType => vec![vec![111, 116, 102], vec![79, 84, 70]],  // otf OTF
        FileFormat::Ovf => vec![vec![111, 118, 102], vec![118, 102]],  // ovf vf
        FileFormat::Pict => vec![
            vec![112, 100, 102],  // pdf
            vec![106, 112, 103],  // jpg
            vec![101, 112, 115],  // eps
            vec![101, 112, 115, 105],  // epsi
        ],
        FileFormat::Pk => vec![vec![112, 107]],  // pk
        FileFormat::ProgramData => vec![
            vec![112, 114, 111, 103, 114, 97, 109, 100, 97, 116, 97],  // programdata
        ],
        FileFormat::Sfd => vec![vec![115, 102, 100]],  // sfd
        FileFormat::Tex => vec![
            vec![116, 101, 120],  // tex
            vec![115, 116, 121],  // sty
            vec![99, 108, 115],  // cls
            vec![102, 100],  // fd
            vec![97, 117, 120],  // aux
            vec![98, 98, 108],  // bbl
            vec![100, 101, 102],  // def
            vec![99, 108, 111],  // clo
            vec![108, 100, 102],  // ldf
        ],
        FileFormat::TexPsHeader => vec![vec![112, 114, 111]],  // pro
        FileFormat::TFM => vec![vec![116, 102, 109]],  // tfm
        FileFormat::TrueType => vec![
            vec![116, 116, 102],  // ttf
            vec![116, 116, 99],  // ttc
            vec![84, 84, 70],  // TTF
            vec![84, 84, 67],  // TTC
            vec![100, 102, 111, 110, 116],  // dfont
        ],
        FileFormat::Type1 => vec![vec![112, 102, 97], vec![112, 102, 98]],  // pfa pfb
        FileFormat::Vf => vec![vec![118, 102]],  // vf
    };
    assert(byte_strings(r@) =~= format_extensions(format));
    r
}

/// Maps the engine's numeric format code to a format, where the code is known.
pub fn c_format_to_rust(format: i32) -> (r: Option<FileFormat>)
    ensures
        r == format_of_code(format),
{
    match format {
        1 => Some(FileFormat::Pk),
        3 => Some(FileFormat::TFM),
        4 => Some(FileFormat::AFM),
        6 => Some(FileFormat::Bib),
        7 => Some(FileFormat::Bst),
        10 => Some(FileFormat::Format),
        11 => Some(FileFormat::FontMap),
        20 => Some(FileFormat::Ofm),
        23 => Some(FileFormat::Ovf),
        25 => Some(FileFormat::Pict),
        26 => Some(FileFormat::Tex),
        30 => Some(FileFormat::TexPsHeader),
        32 => Some(FileFormat::Type1),
        33 => Some(FileFormat::Vf),
        36 => Some(FileFormat::TrueType),
        39 => Some(FileFormat::ProgramData),
        // the text and binary variants of program data are not told apart
        40 => Some(FileFormat::ProgramData),
        41 => Some(FileFormat::MiscFonts),
        44 => Some(FileFormat::Enc),
        45 => Some(FileFormat::Cmap),
        46 => Some(FileFormat::Sfd),
        47 => Some(FileFormat::OpenType),
        _ => None,
    }
}

/// The engine's numbering of formats.
pub open spec fn format_of_code(code: i32) -> Option<FileFormat> {
    if code == 1 {
        Some(FileFormat::Pk)
    } else if code == 3 {
        Some(FileFormat::TFM)
    } else if code == 4 {
        Some(FileFormat::AFM)
    } else if code == 6 {
        Some(FileFormat::Bib)
    } else if code == 7 {
        Some(FileFormat::Bst)
    } else if code == 10 {
        Some(FileFormat::Format)
    } else if code == 11 {
        Some(FileFormat::FontMap)
    } else if code == 20 {
        Some(FileFormat::Ofm)
    } else if code == 23 {
        Some(FileFormat::Ovf)
    } else if code == 25 {
        Some(FileFormat::Pict)
    } else if code == 26 {
        Some(FileFormat::Tex)
    } else if code == 30 {
        Some(FileFormat::TexPsHeader)
    } else if code == 32 {
        Some(FileFormat::Type1)
    } else if code == 33 {
        Some(FileFormat::Vf)
    } else if code == 36 {
        Some(FileFormat::TrueType)
    } else if code == 39 || code == 40 {
        Some(FileFormat::ProgramData)
    } else if code == 41 {
        Some(FileFormat::MiscFonts)
    } else if code == 44 {
        Some(FileFormat::Enc)
    } else if code == 45 {
        Some(FileFormat::Cmap)
    } else if code == 46 {
        Some(FileFormat::Sfd)
    } else if code == 47 {
        Some(FileFormat::OpenType)
    } else {
        None
    }
}

/// The byte that separates the components of a name.
pub const SLASH: u8 = 47;

/// The byte that introduces an extension.
pub const DOT: u8 = 46;

/// The final component of `name` holds a dot that is not its first byte.
pub open spec fn has_extension(name: Seq<u8>) -> bool {
    exists|j: int|
        0 < j < name.len() && #[trigger] name[j] == DOT && name[j - 1] != SLASH && (forall|k: int|
            j <= k < name.len() ==> name[k] != SLASH)
}

/// The final component of `name` is not empty, so an extension can be put to it.
pub open spec fn has_file_name(name: Seq<u8>) -> bool {
    name.len() > 0 && name.last() != SLASH
}

/// `name` with the extension `ext` put to it.
pub open spec fn with_extension(name: Seq<u8>, ext: Seq<u8>) -> Seq<u8> {
    name.push(DOT) + ext
}

/// Whether the final component of `name` carries an extension.
pub fn name_has_extension(name: &[u8]) -> (r: bool)
    ensures
        r == has_extension(name@),
{
    let mut i: usize = name.len();
    while i > 0
        invariant
            i <= name@.len(),
            forall|k: int| i <= k < name@.len() ==> name@[k] != SLASH,
            forall|j: int|
                i <= j < name@.len() && 0 < j ==> !(#[trigger] name@[j] == DOT && name@[j - 1]
                    != SLASH),
        decreases i,
    {
        let c = name[i - 1];
        if c == SLASH {
            assert forall|j: int|
                0 < j < name@.len() && #[trigger] name@[j] == DOT && name@[j - 1] != SLASH
                    implies !(forall|k: int| j <= k < name@.len() ==> name@[k] != SLASH) by {
                if j < i {
                    assert(name@[i - 1] == SLASH);
                }
            }
            return false;
        }
        if c == DOT && i > 1 && name[i - 2] != SLASH {
            assert(name@[i - 1] == DOT);
            return true;
        }
        i = i - 1;
    }
    false
}

/// Whether the final component of `name` is not empty.
pub fn name_has_file_name(name: &[u8]) -> (r: bool)
    ensures
        r == has_file_name(name@),
{
    name.len() > 0 && name[name.len() - 1] != SLASH
}

/// Appends the bytes of `src` to `dst`.
pub fn append_bytes(dst: &mut Vec<u8>, src: &[u8])
    ensures
        final(dst)@ == old(dst)@ + src@,
{
    dst.extend_from_slice(src);
    assert(dst@ =~= old(dst)@ + src@);
}

/// Whether two byte strings are equal.
pub fn bytes_eq(a: &[u8], b: &[u8]) -> (r: bool)
    ensures
        r == (a@ == b@),
{
    if a.len() != b.len() {
        return false;
    }
    let mut i: usize = 0;
    while i < a.len()
        invariant
            a@.len() == b@.len(),
            i <= a@.len(),
            forall|k: int| 0 <= k < i ==> a@[k] == b@[k],
        decreases a@.len() - i,
    {
        if a[i] != b[i] {
            return false;
        }
        i = i + 1;
    }
    assert(a@ =~= b@);
    true
}

/// A copy of `name` with the extension `ext` put to it.
pub fn name_with_extension(name: &[u8], ext: &[u8]) -> (r: Vec<u8>)
    ensures
        r@ == with_extension(name@, ext@),
{
    let mut r: Vec<u8> = Vec::new();
    append_bytes(&mut r, name);
    r.push(DOT);
    append_bytes(&mut r, ext);
    assert(r@ =~= with_extension(name@, ext@));
    r
}

/// `name` has a component `..` starting at `j`.
pub open spec fn parent_at(name: Seq<u8>, j: int) -> bool {
    &&& 0 <= j
    &&& j + 1 < name.len()
    &&& name[j] == DOT
    &&& name[j + 1] == DOT
    &&& (j == 0 || name[j - 1] == SLASH)
    &&& (j + 2 == name.len() || name[j + 2] == SLASH)
}

/// `name` stays inside the directory it is resolved against: it is not
/// absolute and no component of it is `..`.
pub open spec fn stays_inside(name: Seq<u8>) -> bool {
    &&& (name.len() == 0 || name[0] != SLASH)
    &&& forall|j: int| !parent_at(name, j)
}

/// Whether `name`, resolved against a root directory, stays inside it.
pub fn name_stays_inside(name: &[u8]) -> (r: bool)
    ensures
        r == stays_inside(name@),
{
    let len = name.len();
    if len > 0 && name[0] == SLASH {
        return false;
    }
    let mut j: usize = 0;
    while len - j > 1
        invariant
            j <= len,
            len == name@.len(),
            forall|k: int| 0 <= k < j ==> !parent_at(name@, k),
        decreases len - j,
    {
        if name[j] == DOT && name[j + 1] == DOT && (j == 0 || name[j - 1] == SLASH) && (j + 2 == len
            || name[j + 2] == SLASH) {
            assert(parent_at(name@, j as int));
            return false;
        }
        j = j + 1;
    }
    true
}

} // verus!
