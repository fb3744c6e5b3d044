//! Opcode-pattern statistics over discovered regions, used to narrow down
//! which toolchain produced the code.

use vstd::prelude::*;

verus! {

use crate::analysis::rs_field;
use crate::analysis::rt_field;
use crate::decode::cpu_op_addiu;
use crate::decode::cpu_op_b;
use crate::decode::cpu_op_break;
use crate::decode::cpu_op_j;
use crate::decode::cpu_op_lui;
use crate::decode::cpu_op_mfhi_mflo;
use crate::decode::cpu_op_mtc1;
use crate::decode::cpu_op_ori;
use crate::decode::query_cpu_op_addiu;
use crate::decode::query_cpu_op_b;
use crate::decode::query_cpu_op_break;
use crate::decode::query_cpu_op_j;
use crate::decode::query_cpu_op_lui;
use crate::decode::query_cpu_op_mfhi_mflo;
use crate::decode::query_cpu_op_mtc1;
use crate::decode::query_cpu_op_ori;
use crate::findcode::RomRegion;
use crate::utils::read_word_at;
use crate::utils::word_at;

/// Do not guess between `b`-favouring and `j`-favouring toolchains from
/// fewer unconditional branches than this.
pub const BJ_THRESHOLD: usize = 10;

/// The toolchains the fingerprinting can tell apart.
#[derive(Debug, Clone, Copy, PartialEq, Eq, Hash, Structural)]
pub enum Compiler {
    /// IDO 5.3.
    IDO53,
    /// IDO 7.1.
    IDO71,
    /// KMC GCC (2.7.2).
    KMCGCC,
    /// Intelligent Systems GCC (2.8.1).
    ISGCC,
    /// SN64 (GCC 2.7/8 with a custom assembler).
    SN64,
    /// The SN64 C++ compiler.
    SNCXX,
    /// The Metrowerks CodeWarrior compiler.
    MWCC,
}

/// The set of toolchains still considered possible, one flag per candidate.
#[derive(Debug, Clone, Copy, PartialEq, Eq, Structural)]
#[allow(missing_docs)]
pub struct CompilerSet {
    pub ido53: bool,
    pub ido71: bool,
    pub kmcgcc: bool,
    pub isgcc: bool,
    pub sn64: bool,
    pub sncxx: bool,
    pub mwcc: bool,
}

/// `s` narrowed to the IDO toolchains.
pub open spec fn spec_retain_ido(s: CompilerSet) -> CompilerSet {
    CompilerSet {
        ido53: s.ido53,
        ido71: s.ido71,
        kmcgcc: false,
        isgcc: false,
        sn64: false,
        sncxx: false,
        mwcc: false,
    }
}

/// `s` without the IDO toolchains.
pub open spec fn spec_remove_ido(s: CompilerSet) -> CompilerSet {
    CompilerSet { ido53: false, ido71: false, ..s }
}

/// `s` without the SN64 toolchains.
pub open spec fn spec_remove_sn(s: CompilerSet) -> CompilerSet {
    CompilerSet { sn64: false, sncxx: false, ..s }
}

impl CompilerSet {
    /// The set of all candidate toolchains.
    pub fn full() -> (r: Self)
        ensures
            r == (CompilerSet {
                ido53: true,
                ido71: true,
                kmcgcc: true,
                isgcc: true,
                sn64: true,
                sncxx: true,
                mwcc: true,
            }),
    {
        CompilerSet {
            ido53: true,
            ido71: true,
            kmcgcc: true,
            isgcc: true,
            sn64: true,
            sncxx: true,
            mwcc: true,
        }
    }

    /// The empty set.
    pub fn empty() -> (r: Self)
        ensures
            r == (CompilerSet {
                ido53: false,
                ido71: false,
                kmcgcc: false,
                isgcc: false,
                sn64: false,
                sncxx: false,
                mwcc: false,
            }),
    {
        CompilerSet {
            ido53: false,
            ido71: false,
            kmcgcc: false,
            isgcc: false,
            sn64: false,
            sncxx: false,
            mwcc: false,
        }
    }

    /// Keeps only the IDO toolchains.
    pub fn retain_ido(&mut self)
        ensures
            *final(self) == spec_retain_ido(*old(self)),
    {
        self.kmcgcc = false;
        self.isgcc = false;
        self.sn64 = false;
        self.sncxx = false;
        self.mwcc = false;
    }

    /// Drops the IDO toolchains.
    pub fn remove_ido(&mut self)
        ensures
            *final(self) == spec_remove_ido(*old(self)),
    {
        self.ido53 = false;
        self.ido71 = false;
    }

    /// Drops the SN64 toolchains.
    pub fn remove_sn(&mut self)
        ensures
            *final(self) == spec_remove_sn(*old(self)),
    {
        self.sn64 = false;
        self.sncxx = false;
    }

    /// Adds every toolchain of `other` to this set.
    pub fn extend(&mut self, other: &CompilerSet)
        ensures
            *final(self) == (CompilerSet {
                ido53: old(self).ido53 || other.ido53,
                ido71: old(self).ido71 || other.ido71,
                kmcgcc: old(self).kmcgcc || other.kmcgcc,
                isgcc: old(self).isgcc || other.isgcc,
                sn64: old(self).sn64 || other.sn64,
                sncxx: old(self).sncxx || other.sncxx,
                mwcc: old(self).mwcc || other.mwcc,
            }),
    {
        self.ido53 = self.ido53 || other.ido53;
        self.ido71 = self.ido71 || other.ido71;
        self.kmcgcc = self.kmcgcc || other.kmcgcc;
        self.isgcc = self.isgcc || other.isgcc;
        self.sn64 = self.sn64 || other.sn64;
        self.sncxx = self.sncxx || other.sncxx;
        self.mwcc = self.mwcc || other.mwcc;
    }

    /// How many toolchains the set holds.
    pub fn count(&self) -> (r: usize)
        ensures
            r == spec_set_count(*self),
    {
        let mut c: usize = 0;
        if self.ido53 {
            c = c + 1;
        }
        if self.ido71 {
            c = c + 1;
        }
        if self.kmcgcc {
            c = c + 1;
        }
        if self.isgcc {
            c = c + 1;
        }
        if self.sn64 {
            c = c + 1;
        }
        if self.sncxx {
            c = c + 1;
        }
        if self.mwcc {
            c = c + 1;
        }
        c
    }
}

/// How many toolchains a set holds.
pub open spec fn spec_set_count(s: CompilerSet) -> int {
    (if s.ido53 {
        1int
    } else {
        0
    }) + (if s.ido71 {
        1int
    } else {
        0
    }) + (if s.kmcgcc {
        1int
    } else {
        0
    }) + (if s.isgcc {
        1int
    } else {
        0
    }) + (if s.sn64 {
        1int
    } else {
        0
    }) + (if s.sncxx {
        1int
    } else {
        0
    }) + (if s.mwcc {
        1int
    } else {
        0
    })
}

/// How many words of `[i, end)` decode to `b`.
pub open spec fn b_count_from(rom: Seq<u8>, i: int, end: int) -> int
    decreases end - i,
{
    if i + 4 > end {
        0
    } else {
        (if cpu_op_b(word_at(rom, i)) {
            1int
        } else {
            0
        }) + b_count_from(rom, i + 4, end)
    }
}

/// How many words of `[i, end)` decode to `j`.
pub open spec fn j_count_from(rom: Seq<u8>, i: int, end: int) -> int
    decreases end - i,
{
    if i + 4 > end {
        0
    } else {
        (if cpu_op_j(word_at(rom, i)) {
            1int
        } else {
            0
        }) + j_count_from(rom, i + 4, end)
    }
}

/// Distinguishes IDO from the GCC family by unconditional branches: IDO
/// emits `b`, GCC emits `j`. Returns the two counts over the region; with
/// enough of them, narrows the candidate set to the majority's family.
pub fn b_vs_j(rom_bytes: &[u8], region: &RomRegion, possible_compilers: &mut CompilerSet) -> (r: (
    usize,
    usize,
))
    requires
        0 <= region@.start <= region@.end <= rom_bytes@.len(),
    ensures
        r.0 == b_count_from(rom_bytes@, region@.start, region@.end),
        r.1 == j_count_from(rom_bytes@, region@.start, region@.end),
        *final(possible_compilers) == if r.0 + r.1 > BJ_THRESHOLD {
            if r.0 > r.1 {
                spec_retain_ido(*old(possible_compilers))
            } else {
                spec_remove_ido(*old(possible_compilers))
            }
        } else {
            *old(possible_compilers)
        },
{
    let start = region.rom_start();
    let end = region.rom_end();
    let mut b_count: usize = 0;
    let mut j_count: usize = 0;
    let mut i: usize = start;
    loop
        invariant
            start <= i <= end <= rom_bytes@.len(),
            4 * b_count <= i - start,
            4 * j_count <= i - start,
            b_count_from(rom_bytes@, start as int, end as int) == b_count + b_count_from(
                rom_bytes@,
                i as int,
                end as int,
            ),
            j_count_from(rom_bytes@, start as int, end as int) == j_count + j_count_from(
                rom_bytes@,
                i as int,
                end as int,
            ),
        ensures
            b_count == b_count_from(rom_bytes@, start as int, end as int),
            j_count == j_count_from(rom_bytes@, start as int, end as int),
        decreases end - i,
    {
        if end - i < 4 {
            break ;
        }
        let w = read_word_at(rom_bytes, i);
        if query_cpu_op_b(w) {
            b_count = b_count + 1;
        }
        if query_cpu_op_j(w) {
            j_count = j_count + 1;
        }
        i = i + 4;
    }
    // Do not attempt to guess if there are too few
    if b_count + j_count > BJ_THRESHOLD {
        if b_count > j_count {
            possible_compilers.retain_ido();
        } else {
            possible_compilers.remove_ido();
        }
    }
    (b_count, j_count)
}

/// The float-load pattern counts over `[i, end)`: pairs of `lui $at`
/// (possibly bridged by `ori $at, $at`) followed by `mtc1 $at`, against
/// `mtc1` words with no such prelude. `after_lui_at` says whether the word
/// before `i` put such a prelude in effect.
pub open spec fn float_load_counts_from(rom: Seq<u8>, i: int, end: int, after_lui_at: bool) -> (
    int,
    int,
)
    decreases end - i,
{
    if i + 4 > end {
        (0int, 0int)
    } else {
        let w = word_at(rom, i);
        if cpu_op_lui(w) && rt_field(w) == 1 {
            float_load_counts_from(rom, i + 4, end, true)
        } else if cpu_op_ori(w) && rs_field(w) == 1 && rt_field(w) == 1 {
            // an intermediate ori $at, $at keeps the prelude alive
            float_load_counts_from(rom, i + 4, end, after_lui_at)
        } else if cpu_op_mtc1(w) {
            let rest = float_load_counts_from(rom, i + 4, end, false);
            if after_lui_at && rt_field(w) == 1 {
                (1 + rest.0, rest.1)
            } else {
                (rest.0, 1 + rest.1)
            }
        } else {
            float_load_counts_from(rom, i + 4, end, false)
        }
    }
}

/// Counts float loads through `$at` (`lui $at`, optional `ori $at, $at`,
/// then `mtc1 $at`) against isolated `mtc1` words over the region. Some GCC
/// toolchains always load floats through the pattern and SN64 never does, so
/// finding the pattern drops SN64; IDO alone moves floats into the
/// coprocessor without the prelude, so an isolated `mtc1` narrows the set to
/// IDO.
pub fn float_load_pattern(
    rom_bytes: &[u8],
    region: &RomRegion,
    possible_compilers: &mut CompilerSet,
) -> (r: (usize, usize))
    requires
        0 <= region@.start <= region@.end <= rom_bytes@.len(),
    ensures
        (r.0 as int, r.1 as int) == float_load_counts_from(
            rom_bytes@,
            region@.start,
            region@.end,
            false,
        ),
        *final(possible_compilers) == {
            let narrowed = if r.0 > 0 {
                spec_remove_sn(*old(possible_compilers))
            } else {
                *old(possible_compilers)
            };
            if r.1 > 0 {
                spec_retain_ido(narrowed)
            } else {
                narrowed
            }
        },
{
    let start = region.rom_start();
    let end = region.rom_end();
    let mut last_was_lui_at = false;
    let mut float_load_pattern_count: usize = 0;
    let mut isolated_mtc1_count: usize = 0;
    let mut i: usize = start;
    loop
        invariant
            start <= i <= end <= rom_bytes@.len(),
            4 * float_load_pattern_count <= i - start,
            4 * isolated_mtc1_count <= i - start,
            float_load_counts_from(rom_bytes@, start as int, end as int, false) == {
                let rest = float_load_counts_from(rom_bytes@, i as int, end as int, last_was_lui_at);
                (float_load_pattern_count + rest.0, isolated_mtc1_count + rest.1)
            },
        ensures
            (float_load_pattern_count as int, isolated_mtc1_count as int) == float_load_counts_from(
                rom_bytes@,
                start as int,
                end as int,
                false,
            ),
        decreases end - i,
    {
        if end - i < 4 {
            break ;
        }
        let w = read_word_at(rom_bytes, i);
        let instr = crate::analysis::MyInstruction::new(w);
        if query_cpu_op_lui(w) && instr.rt_num() == 1 {
            last_was_lui_at = true;
        } else if query_cpu_op_ori(w) && instr.rs_num() == 1 && instr.rt_num() == 1 {
            // ignore an intermediate ori $at, $at
        } else if query_cpu_op_mtc1(w) {
            if last_was_lui_at && instr.rt_num() == 1 {
                float_load_pattern_count = float_load_pattern_count + 1;
            } else {
                isolated_mtc1_count = isolated_mtc1_count + 1;
            }
            last_was_lui_at = false;
        } else {
            last_was_lui_at = false;
        }
        i = i + 4;
    }
    if float_load_pattern_count > 0 {
        // Pattern found: could be GCC or IDO, but not SN
        possible_compilers.remove_sn();
    }
    if isolated_mtc1_count > 0 {
        // Must be IDO
        possible_compilers.retain_ido();
    }
    (float_load_pattern_count, isolated_mtc1_count)
}

/// The ten-bit upper code field of a `break` word (bits 16 to 25).
pub open spec fn code_upper_field(w: u32) -> u32 {
    (w >> 16) & 0x3FF
}

/// The sixteen-bit immediate field of an instruction word.
pub open spec fn immediate_field(w: u32) -> u32 {
    w & 0xFFFF
}

/// The `break 6`/`break 7` pattern counts over `[i, end)`: after a `break`
/// with upper code 6 or 7, division-by-zero guards continue with `mfhi`,
/// `mflo`, or (after `break 7`) `addiu $at, $zero, -1`; any other follower
/// counts as irregular. The two flags say which `break` the word before `i`
/// was.
pub open spec fn break_counts_from(
    rom: Seq<u8>,
    i: int,
    end: int,
    after6: bool,
    after7: bool,
) -> (int, int, int, int)
    decreases end - i,
{
    if i + 4 > end {
        (0int, 0int, 0int, 0int)
    } else {
        let w = word_at(rom, i);
        if after6 {
            let rest = break_counts_from(rom, i + 4, end, false, false);
            if cpu_op_mfhi_mflo(w) {
                (1 + rest.0, rest.1, rest.2, rest.3)
            } else {
                (rest.0, 1 + rest.1, rest.2, rest.3)
            }
        } else if after7 {
            let rest = break_counts_from(rom, i + 4, end, false, false);
            if cpu_op_mfhi_mflo(w) {
                (rest.0, rest.1, 1 + rest.2, rest.3)
            } else if cpu_op_addiu(w) && rs_field(w) == 1 && rt_field(w) == 0 && immediate_field(w)
                == 0xFFFF {
                (rest.0, rest.1, 1 + rest.2, rest.3)
            } else {
                (rest.0, rest.1, rest.2, 1 + rest.3)
            }
        } else if cpu_op_break(w) && code_upper_field(w) == 6 {
            break_counts_from(rom, i + 4, end, true, false)
        } else if cpu_op_break(w) && code_upper_field(w) == 7 {
            break_counts_from(rom, i + 4, end, false, true)
        } else {
            break_counts_from(rom, i + 4, end, false, false)
        }
    }
}

/// Counts the words following `break 6` and `break 7` that fit the usual
/// division guards against those that do not; an irregular follower narrows
/// the candidate set to IDO. Returns the pattern and irregular counts for
/// `break 6` and `break 7` in that order.
pub fn break_6_7_pattern(
    rom_bytes: &[u8],
    region: &RomRegion,
    possible_compilers: &mut CompilerSet,
) -> (r: (usize, usize, usize, usize))
    requires
        0 <= region@.start <= region@.end <= rom_bytes@.len(),
    ensures
        (r.0 as int, r.1 as int, r.2 as int, r.3 as int) == break_counts_from(
            rom_bytes@,
            region@.start,
            region@.end,
            false,
            false,
        ),
        *final(possible_compilers) == if r.1 > 0 || r.3 > 0 {
            spec_retain_ido(*old(possible_compilers))
        } else {
            *old(possible_compilers)
        },
{
    let start = region.rom_start();
    let end = region.rom_end();
    let mut last_was_break_6 = false;
    let mut last_was_break_7 = false;
    let mut break_6_pattern_count: usize = 0;
    let mut other_break_6_count: usize = 0;
    let mut break_7_pattern_count: usize = 0;
    let mut other_break_7_count: usize = 0;
    let mut i: usize = start;
    loop
        invariant
            start <= i <= end <= rom_bytes@.len(),
            4 * break_6_pattern_count <= i - start,
            4 * other_break_6_count <= i - start,
            4 * break_7_pattern_count <= i - start,
            4 * other_break_7_count <= i - start,
            !(last_was_break_6 && last_was_break_7),
            break_counts_from(rom_bytes@, start as int, end as int, false, false) == {
                let rest = break_counts_from(
                    rom_bytes@,
                    i as int,
                    end as int,
                    last_was_break_6,
                    last_was_break_7,
                );
                (
                    break_6_pattern_count + rest.0,
                    other_break_6_count + rest.1,
                    break_7_pattern_count + rest.2,
                    other_break_7_count + rest.3,
                )
            },
        ensures
            (
                break_6_pattern_count as int,
                other_break_6_count as int,
                break_7_pattern_count as int,
                other_break_7_count as int,
            ) == break_counts_from(rom_bytes@, start as int, end as int, false, false),
        decreases end - i,
    {
        if end - i < 4 {
            break ;
        }
        let w = read_word_at(rom_bytes, i);
        let instr = crate::analysis::MyInstruction::new(w);
        if last_was_break_6 {
            if query_cpu_op_mfhi_mflo(w) {
                break_6_pattern_count = break_6_pattern_count + 1;
            } else {
                other_break_6_count = other_break_6_count + 1;
            }
            last_was_break_6 = false;
        } else if last_was_break_7 {
            if query_cpu_op_mfhi_mflo(w) {
                break_7_pattern_count = break_7_pattern_count + 1;
            } else if query_cpu_op_addiu(w) && instr.rs_num() == 1 && instr.rt_num() == 0 && (w
                & 0xFFFF) == 0xFFFF {
                break_7_pattern_count = break_7_pattern_count + 1;
            } else {
                other_break_7_count = other_break_7_count + 1;
            }
            last_was_break_7 = false;
        } else if query_cpu_op_break(w) {
            let code_upper = (w >> 16) & 0x3FF;
            if code_upper == 6 {
                last_was_break_6 = true;
            } else if code_upper == 7 {
                last_was_break_7 = true;
            }
        }
        i = i + 4;
    }
    if other_break_6_count > 0 || other_break_7_count > 0 {
        // Must be IDO
        possible_compilers.retain_ido();
    }
    (break_6_pattern_count, other_break_6_count, break_7_pattern_count, other_break_7_count)
}

} // verus!
