//! The size header and character records of font-metric files.

use crate::error::Unspecified;
use vstd::prelude::*;

verus! {

/// The big-endian 16-bit integer at `i`.
pub open spec fn be16(b: Seq<u8>, i: int) -> int {
    b[i] * 256 + b[i + 1]
}

fn read_u16be(b: &[u8], i: usize) -> (r: u16)
    requires
        i + 1 < b@.len(),
    ensures
        r == be16(b@, i as int),
{
    b[i] as u16 * 256 + b[i + 1] as u16
}

/// The twelve sizes at the start of a font-metric file, in words.
#[derive(Debug)]
pub struct SizeInfos {
    pub file_word_count: u16,
    pub header_size: u16,
    pub first_char: u16,
    pub last_char: u16,
    pub width_table_size: u16,
    pub height_table_size: u16,
    pub depth_table_size: u16,
    pub italics_correction_table_size: u16,
    pub lig_kern_table_size: u16,
    pub kern_table_size: u16,
    pub extensible_character_table_size: u16,
    pub font_parameters: u16,
}

/// The number of bytes that the size header takes.
pub const SIZE_INFOS_LEN: usize = 24;

/// `s` holds the twelve big-endian integers at the start of `b`.
pub open spec fn size_infos_of(s: SizeInfos, b: Seq<u8>) -> bool {
    &&& s.file_word_count == be16(b, 0)
    &&& s.header_size == be16(b, 2)
    &&& s.first_char == be16(b, 4)
    &&& s.last_char == be16(b, 6)
    &&& s.width_table_size == be16(b, 8)
    &&& s.height_table_size == be16(b, 10)
    &&& s.depth_table_size == be16(b, 12)
    &&& s.italics_correction_table_size == be16(b, 14)
    &&& s.lig_kern_table_size == be16(b, 16)
    &&& s.kern_table_size == be16(b, 18)
    &&& s.extensible_character_table_size == be16(b, 20)
    &&& s.font_parameters == be16(b, 22)
}

/// The number of words that the sizes say the file takes, before scaling.
pub open spec fn expected_words(s: SizeInfos) -> int {
    6 + s.header_size + (s.last_char - s.first_char + 1) + s.width_table_size + s.height_table_size
        + s.depth_table_size + s.italics_correction_table_size + s.lig_kern_table_size
        + s.kern_table_size + s.extensible_character_table_size + s.font_parameters
}

impl SizeInfos {
    /// Reads the size header from the start of `input`; `Unspecified` where
    /// the input is shorter than the header.
    pub fn parse(input: &[u8]) -> (r: Result<SizeInfos, Unspecified>)
        ensures
            input@.len() < SIZE_INFOS_LEN ==> r is Err,
            input@.len() >= SIZE_INFOS_LEN ==> r is Ok && size_infos_of(r->Ok_0, input@),
    {
        if input.len() < SIZE_INFOS_LEN {
            return Err(Unspecified);
        }
        Ok(
            SizeInfos {
                file_word_count: read_u16be(input, 0),
                header_size: read_u16be(input, 2),
                first_char: read_u16be(input, 4),
                last_char: read_u16be(input, 6),
                width_table_size: read_u16be(input, 8),
                height_table_size: read_u16be(input, 10),
                depth_table_size: read_u16be(input, 12),
                italics_correction_table_size: read_u16be(input, 14),
                lig_kern_table_size: read_u16be(input, 16),
                kern_table_size: read_u16be(input, 18),
                extensible_character_table_size: read_u16be(input, 20),
                font_parameters: read_u16be(input, 22),
            },
        )
    }

    /// The number of characters from the first to the last.
    pub fn char_count(&self) -> (r: usize)
        requires
            self.first_char <= self.last_char < self.first_char + 65535,
        ensures
            r == self.last_char - self.first_char + 1,
    {
        (self.last_char - self.first_char + 1) as usize
    }

    /// The size in bytes that the file should have.
    pub fn expected_file_size(&self) -> (r: u16)
        requires
            self.first_char <= self.last_char < self.first_char + 65535,
            expected_words(*self) * 4 <= u16::MAX,
        ensures
            r == expected_words(*self) * 4,
    {
        (6 + self.header_size + self.char_count() as u16 + self.width_table_size
            + self.height_table_size + self.depth_table_size + self.italics_correction_table_size
            + self.lig_kern_table_size + self.kern_table_size
            + self.extensible_character_table_size + self.font_parameters) * 4
    }
}

/// The table indices of one character.
#[derive(Debug, PartialEq, Eq, Structural)]
pub struct CharIndices {
    pub width: usize,
    pub height: usize,
    pub depth: usize,
}

/// Reads one character record: the width index is the first byte, the
/// height and depth indices the high and low halves of the second.
pub fn char_info(input: &[u8]) -> (r: Result<CharIndices, Unspecified>)
    ensures
        input@.len() < 4 ==> r is Err,
        input@.len() >= 4 ==> r == Ok::<CharIndices, Unspecified>(
            CharIndices {
                width: input@[0] as usize,
                height: (input@[1] / 16) as usize,
                depth: (input@[1] % 16) as usize,
            },
        ),
{
    if input.len() < 4 {
        return Err(Unspecified);
    }
    Ok(
        CharIndices {
            width: input[0] as usize,
            height: (input[1] / 16) as usize,
            depth: (input[1] % 16) as usize,
        },
    )
}

} // verus!
