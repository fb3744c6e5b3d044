//! Scan for the magic words of known compressed-segment formats.

use vstd::prelude::*;

verus! {

use crate::utils::read_word_at;
use crate::utils::word_at;

/// A compressed-segment format, recognised by its four-byte magic.
#[derive(Debug, Clone, Copy, PartialEq, Eq, Structural)]
#[allow(missing_docs)]
pub enum Type {
    MIO0,
    Yaz0,
    Yay0,
}

/// The four-byte magic of a format, read as one big-endian word: the ASCII
/// bytes of `MIO0`, `Yaz0` or `Yay0`.
pub open spec fn spec_magic_word(t: Type) -> u32 {
    match t {
        Type::MIO0 => 0x4D49_4F30,
        Type::Yaz0 => 0x5961_7A30,
        Type::Yay0 => 0x5961_7930,
    }
}

impl Type {
    /// The format's magic as one big-endian word.
    pub fn magic(&self) -> (r: u32)
        ensures
            r == spec_magic_word(*self),
    {
        match self {
            Type::MIO0 => 0x4D49_4F30,
            Type::Yaz0 => 0x5961_7A30,
            Type::Yay0 => 0x5961_7930,
        }
    }
}

/// A compressed segment found in the ROM: its format and where its magic
/// stands.
#[derive(Debug, Clone, Copy, PartialEq, Eq, Structural)]
pub struct CompressedSegment {
    /// The compression format whose magic was found.
    pub algorithm: Type,
    /// Byte offset of the magic in the ROM.
    pub rom_start: usize,
}

/// The word-aligned offsets at or after `i` whose word equals `w`, ascending.
pub open spec fn magic_locs_from(rom: Seq<u8>, i: int, w: u32) -> Seq<int>
    decreases rom.len() - i,
{
    if i + 4 > rom.len() {
        Seq::empty()
    } else if word_at(rom, i) == w {
        seq![i] + magic_locs_from(rom, i + 4, w)
    } else {
        magic_locs_from(rom, i + 4, w)
    }
}

/// The segments a scan for format `t` reports: one per match of the magic
/// word, in ascending offset order.
pub open spec fn spec_segments(rom: Seq<u8>, t: Type) -> Seq<CompressedSegment> {
    magic_locs_from(rom, 0, spec_magic_word(t)).map_values(
        |p: int| CompressedSegment { algorithm: t, rom_start: p as usize },
    )
}

/// Scans the whole buffer, at word-aligned offsets, for the magic of the
/// given format. As a segment must start word-aligned, unaligned bytes need
/// not be examined.
pub fn find_magic(rom_bytes: &[u8], algorithm: Type) -> (r: Vec<CompressedSegment>)
    ensures
        r@ == spec_segments(rom_bytes@, algorithm),
{
    let magic = algorithm.magic();
    let n = rom_bytes.len();
    let mut found: Vec<CompressedSegment> = Vec::new();
    let mut i: usize = 0;
    proof {
        assert(found@ =~= magic_locs_from(rom_bytes@, 0, magic).take(0).map_values(
            |p: int| CompressedSegment { algorithm, rom_start: p as usize },
        ));
    }
    loop
        invariant
            i <= n,
            n == rom_bytes@.len(),
            spec_segments(rom_bytes@, algorithm) == found@ + magic_locs_from(
                rom_bytes@,
                i as int,
                magic,
            ).map_values(|p: int| CompressedSegment { algorithm, rom_start: p as usize }),
        ensures
            i + 4 > n,
            spec_segments(rom_bytes@, algorithm) == found@,
        decreases n - i,
    {
        if n - i < 4 {
            proof {
                assert(magic_locs_from(rom_bytes@, i as int, magic) =~= Seq::<int>::empty());
                assert(found@ + Seq::<CompressedSegment>::empty() =~= found@);
                assert(magic_locs_from(rom_bytes@, i as int, magic).map_values(
                    |p: int| CompressedSegment { algorithm, rom_start: p as usize },
                ) =~= Seq::<CompressedSegment>::empty());
            }
            break ;
        }
        let ghost pre = found@;
        let ghost rest = magic_locs_from(rom_bytes@, i as int, magic);
        if read_word_at(rom_bytes, i) == magic {
            found.push(CompressedSegment { algorithm, rom_start: i });
            proof {
                let f = |p: int| CompressedSegment { algorithm, rom_start: p as usize };
                assert(rest == seq![i as int] + magic_locs_from(rom_bytes@, i + 4, magic));
                assert(rest.map_values(f) =~= seq![CompressedSegment { algorithm, rom_start: i }]
                    + magic_locs_from(rom_bytes@, i + 4, magic).map_values(f));
                assert(pre + rest.map_values(f) =~= found@ + magic_locs_from(
                    rom_bytes@,
                    i + 4,
                    magic,
                ).map_values(f));
            }
        }
        i = i + 4;
    }
    found
}

/// Scans the buffer for every known compressed-segment format, reporting the
/// matches format by format.
pub fn find_all(rom_bytes: &[u8]) -> (r: Vec<CompressedSegment>)
    ensures
        r@ == spec_segments(rom_bytes@, Type::MIO0) + spec_segments(rom_bytes@, Type::Yaz0)
            + spec_segments(rom_bytes@, Type::Yay0),
{
    let mut found = find_magic(rom_bytes, Type::MIO0);
    let mut found_yaz = find_magic(rom_bytes, Type::Yaz0);
    let mut found_yay = find_magic(rom_bytes, Type::Yay0);
    found.append(&mut found_yaz);
    found.append(&mut found_yay);
    found
}

} // verus!
