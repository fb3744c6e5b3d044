//! The RSP (microcode) instruction-validity classifier and the scan that
//! decides whether a byte range is a plausible microcode blob.

use vstd::prelude::*;

verus! {

use crate::INSTRUCTION_SIZE;
use crate::analysis::MyInstruction;
use crate::analysis::cop0_field;
use crate::analysis::rd_field;
use crate::analysis::rt_field;
use crate::decode::query_rsp_dereferences;
use crate::decode::query_rsp_modifies_rd;
use crate::decode::query_rsp_modifies_rt;
use crate::decode::query_rsp_op_mtc0_mfc0;
use crate::decode::query_rsp_recognized;
use crate::decode::query_rsp_valid_bits;
use crate::decode::rsp_dereferences;
use crate::decode::rsp_modifies_rd;
use crate::decode::rsp_modifies_rt;
use crate::decode::rsp_op_mtc0_mfc0;
use crate::decode::rsp_recognized;
use crate::decode::rsp_valid_bits;
use crate::utils::read_word_at;
use crate::utils::word_at;

/// How close (in bytes) a new region must start to its predecessor's end for
/// the gap between them to be inspected: 1024 instructions.
pub const CHECK_THRESHHOLD: usize = 0x400 * INSTRUCTION_SIZE;

/// The coprocessor-0 registers of the RSP: the DMA, status and rasterizer
/// registers, numbers 0 to 15; numbers 16 to 31 are reserved.
#[derive(Debug, Clone, Copy, PartialEq, Eq, Structural)]
#[allow(non_camel_case_types)]
#[allow(missing_docs)]
pub enum RSPCop0r {
    SP_MEM_ADDR,
    SP_DRAM_ADDR,
    SP_RD_LEN,
    SP_WR_LEN,
    SP_STATUS,
    SP_DMA_FULL,
    SP_DMA_BUSY,
    SP_SEMAPHORE,
    DPC_START,
    DPC_END,
    DPC_CURRENT,
    DPC_STATUS,
    DPC_CLOCK,
    DPC_BUFBUSY,
    DPC_PIPEBUSY,
    DPC_TMEM,
}

/// The RSP coprocessor-0 register a five-bit field names, or `None` when the
/// number is reserved.
pub open spec fn spec_rsp_cop0(n: u32) -> Option<RSPCop0r> {
    if n == 0 {
        Some(RSPCop0r::SP_MEM_ADDR)
    } else if n == 1 {
        Some(RSPCop0r::SP_DRAM_ADDR)
    } else if n == 2 {
        Some(RSPCop0r::SP_RD_LEN)
    } else if n == 3 {
        Some(RSPCop0r::SP_WR_LEN)
    } else if n == 4 {
        Some(RSPCop0r::SP_STATUS)
    } else if n == 5 {
        Some(RSPCop0r::SP_DMA_FULL)
    } else if n == 6 {
        Some(RSPCop0r::SP_DMA_BUSY)
    } else if n == 7 {
        Some(RSPCop0r::SP_SEMAPHORE)
    } else if n == 8 {
        Some(RSPCop0r::DPC_START)
    } else if n == 9 {
        Some(RSPCop0r::DPC_END)
    } else if n == 10 {
        Some(RSPCop0r::DPC_CURRENT)
    } else if n == 11 {
        Some(RSPCop0r::DPC_STATUS)
    } else if n == 12 {
        Some(RSPCop0r::DPC_CLOCK)
    } else if n == 13 {
        Some(RSPCop0r::DPC_BUFBUSY)
    } else if n == 14 {
        Some(RSPCop0r::DPC_PIPEBUSY)
    } else if n == 15 {
        Some(RSPCop0r::DPC_TMEM)
    } else {
        None
    }
}

/// Whether a five-bit coprocessor-0 field names a defined RSP register.
pub open spec fn rsp_cop0_defined(n: u32) -> bool {
    spec_rsp_cop0(n) is Some
}

/// The RSP coprocessor-0 register named by the word, or the raw field value
/// when that number is reserved.
pub fn instr_get_cop0_rd(my_instruction: &MyInstruction) -> (r: Result<RSPCop0r, u32>)
    ensures
        r == match spec_rsp_cop0(cop0_field(my_instruction.word)) {
            Some(reg) => Ok::<RSPCop0r, u32>(reg),
            None => Err::<RSPCop0r, u32>(cop0_field(my_instruction.word)),
        },
{
    let reg_num = my_instruction.rd_num();
    let maybe_reg = if reg_num == 0 {
        Some(RSPCop0r::SP_MEM_ADDR)
    } else if reg_num == 1 {
        Some(RSPCop0r::SP_DRAM_ADDR)
    } else if reg_num == 2 {
        Some(RSPCop0r::SP_RD_LEN)
    } else if reg_num == 3 {
        Some(RSPCop0r::SP_WR_LEN)
    } else if reg_num == 4 {
        Some(RSPCop0r::SP_STATUS)
    } else if reg_num == 5 {
        Some(RSPCop0r::SP_DMA_FULL)
    } else if reg_num == 6 {
        Some(RSPCop0r::SP_DMA_BUSY)
    } else if reg_num == 7 {
        Some(RSPCop0r::SP_SEMAPHORE)
    } else if reg_num == 8 {
        Some(RSPCop0r::DPC_START)
    } else if reg_num == 9 {
        Some(RSPCop0r::DPC_END)
    } else if reg_num == 10 {
        Some(RSPCop0r::DPC_CURRENT)
    } else if reg_num == 11 {
        Some(RSPCop0r::DPC_STATUS)
    } else if reg_num == 12 {
        Some(RSPCop0r::DPC_CLOCK)
    } else if reg_num == 13 {
        Some(RSPCop0r::DPC_BUFBUSY)
    } else if reg_num == 14 {
        Some(RSPCop0r::DPC_PIPEBUSY)
    } else if reg_num == 15 {
        Some(RSPCop0r::DPC_TMEM)
    } else {
        None
    };
    match maybe_reg {
        Some(reg) => Ok(reg),
        None => Err(reg_num),
    }
}

/// The RSP validity rule: the decoder recognises the word under RSP decoding
/// and finds its bits well formed, no general-purpose destination is
/// `$zero`, and `mtc0`/`mfc0` name a defined RSP register.
pub open spec fn spec_is_valid(w: u32) -> bool {
    &&& rsp_recognized(w)
    &&& rsp_valid_bits(w)
    &&& !(rsp_modifies_rd(w) && rd_field(w) == 0)
    &&& !(rsp_modifies_rt(w) && rt_field(w) == 0)
    &&& !(rsp_op_mtc0_mfc0(w) && !rsp_cop0_defined(cop0_field(w)))
}

/// Checks whether an instruction word is a plausible RSP instruction.
pub fn is_valid(my_instruction: &MyInstruction) -> (r: bool)
    ensures
        r == spec_is_valid(my_instruction.word),
{
    let w = my_instruction.word;

    // Check for instructions with invalid opcodes
    if !query_rsp_recognized(w) {
        return false;
    }
    // Check for instructions with invalid bits
    if !query_rsp_valid_bits(w) {
        return false;
    }
    // Check for arithmetic that outputs to $zero
    if query_rsp_modifies_rd(w) && my_instruction.rd_num() == 0 {
        return false;
    }
    if query_rsp_modifies_rt(w) && my_instruction.rt_num() == 0 {
        return false;
    }
    // Check for mtc0 or mfc0 with reserved registers
    if query_rsp_op_mtc0_mfc0(w) && instr_get_cop0_rd(my_instruction).is_err() {
        return false;
    }
    true
}

/// Checks the word at the start of `bytes` with the RSP classifier.
pub fn is_valid_bytes(bytes: &[u8]) -> (r: bool)
    requires
        bytes@.len() >= 4,
    ensures
        r == spec_is_valid(word_at(bytes@, 0)),
{
    let my_instruction = MyInstruction::new(crate::utils::read_be_word(bytes));
    is_valid(&my_instruction)
}

/// The anti-repetition scan over `[i, end)` with the RSP rule: every word
/// must pass the RSP classifier, and no four identical memory-access words
/// may stand in a row. `prev` and `ident` carry the previous word and the
/// current run length of identical words.
pub open spec fn rsp_range_ok_from(
    rom: Seq<u8>,
    i: int,
    end: int,
    prev: Option<u32>,
    ident: int,
) -> bool
    decreases end - i,
{
    if i + 4 > end {
        true
    } else {
        let w = word_at(rom, i);
        let ident2: int = if prev == Some(w) {
            ident + 1
        } else {
            0
        };
        if ident2 >= 3 && rsp_dereferences(w) {
            false
        } else if !spec_is_valid(w) {
            false
        } else {
            rsp_range_ok_from(rom, i + 4, end, Some(w), ident2)
        }
    }
}

/// Whether every word of `[start, end)` passes the RSP classifier under the
/// anti-repetition rule.
pub open spec fn spec_check_range(rom: Seq<u8>, start: int, end: int) -> bool {
    rsp_range_ok_from(rom, start, end, None::<u32>, 0)
}

/// Checks whether the given ROM range is plausible RSP microcode: every word
/// must be a valid RSP instruction, and a run of four identical loads or
/// stores rejects the range as a decoding artifact.
pub fn check_range(start: usize, end: usize, rom_bytes: &[u8]) -> (r: bool)
    requires
        start <= end <= rom_bytes@.len(),
    ensures
        r == spec_check_range(rom_bytes@, start as int, end as int),
{
    let mut i: usize = start;
    let mut prev: Option<u32> = None;
    let mut identical_count: usize = 0;
    loop
        invariant
            start <= i <= end <= rom_bytes@.len(),
            4 * identical_count <= i - start,
            spec_check_range(rom_bytes@, start as int, end as int) == rsp_range_ok_from(
                rom_bytes@,
                i as int,
                end as int,
                prev,
                identical_count as int,
            ),
        ensures
            i + 4 > end,
            spec_check_range(rom_bytes@, start as int, end as int),
        decreases end - i,
    {
        if end - i < 4 {
            break ;
        }
        let w = read_word_at(rom_bytes, i);
        // Track runs of identical instruction words
        let same = match prev {
            Some(p) => p == w,
            None => false,
        };
        let ident2: usize = if same {
            identical_count + 1
        } else {
            0
        };
        // Four identical loads or stores in a row are not likely to be real
        // code; duplicated arithmetic is plausible, duplicated memory access
        // is not.
        if ident2 >= 3 && query_rsp_dereferences(w) {
            return false;
        }
        let my_instruction = MyInstruction::new(w);
        if !is_valid(&my_instruction) {
            return false;
        }
        prev = Some(w);
        identical_count = ident2;
        i = i + 4;
    }
    true
}

} // verus!
