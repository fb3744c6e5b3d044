//! Trusted query surface over the `rabbitizer` instruction decoder.
//!
//! Every per-word fact the library needs from the decoder is exposed here as
//! a small wrapper around one `rabbitizer` query, always decoding at vram 0.
//! Each query is a pure function of the 32-bit word and of the instruction
//! set (CPU or RSP), so each wrapper pins its result to an uninterpreted
//! spec-level name of the word; all classifier rules are then verified
//! against those names. The decoder's global configuration is left at its
//! defaults, and nothing in this crate changes it, so the queries are indeed
//! functions of the word alone; a program embedding this library must
//! likewise leave that configuration untouched.

use vstd::prelude::*;

verus! {

/// Whether the CPU decoder reports the word as a structurally valid
/// instruction (well-formed bit pattern).
pub uninterp spec fn cpu_valid_bits(w: u32) -> bool;

/// Whether the CPU decoder recognises the word's opcode at all (its unique
/// id is not the "invalid" sentinel).
pub uninterp spec fn cpu_recognized(w: u32) -> bool;

/// Whether the word, decoded as CPU, dereferences memory (load or store).
pub uninterp spec fn cpu_dereferences(w: u32) -> bool;

/// Whether the word, decoded as CPU, is a load.
pub uninterp spec fn cpu_loads(w: u32) -> bool;

/// Whether the word, decoded as CPU, is a store.
pub uninterp spec fn cpu_stores(w: u32) -> bool;

/// Whether the word, decoded as CPU, writes the general-purpose register
/// named by its `rd` field.
pub uninterp spec fn cpu_modifies_rd(w: u32) -> bool;

/// Whether the word, decoded as CPU, writes the general-purpose register
/// named by its `rt` field.
pub uninterp spec fn cpu_modifies_rt(w: u32) -> bool;

/// Whether the word, decoded as CPU, is a trap instruction.
pub uninterp spec fn cpu_traps(w: u32) -> bool;

/// Whether the word, decoded as CPU, writes a return address (`jal`,
/// `jalr`, and the linking branches).
pub uninterp spec fn cpu_links(w: u32) -> bool;

/// Whether the word, decoded as CPU, reads the register in its `rs` field.
pub uninterp spec fn cpu_reads_rs(w: u32) -> bool;

/// Whether the word, decoded as CPU, reads the register in its `rt` field.
pub uninterp spec fn cpu_reads_rt(w: u32) -> bool;

/// Whether the word, decoded as CPU, reads the register in its `rd` field.
pub uninterp spec fn cpu_reads_rd(w: u32) -> bool;

/// Whether the word, decoded as CPU, reads the float register in its `fs`
/// field.
pub uninterp spec fn cpu_reads_fs(w: u32) -> bool;

/// Whether the word, decoded as CPU, reads the float register in its `ft`
/// field.
pub uninterp spec fn cpu_reads_ft(w: u32) -> bool;

/// Whether the word, decoded as CPU, reads the float register in its `fd`
/// field.
pub uninterp spec fn cpu_reads_fd(w: u32) -> bool;

/// Whether the word decodes, as CPU, to `mtc0` or `mfc0`.
pub uninterp spec fn cpu_op_mtc0_mfc0(w: u32) -> bool;

/// Whether the word decodes, as CPU, to one of the instructions the
/// platform's CPU never executes: `ll`, `sc`, `lld`, `scd`, `syscall`.
pub uninterp spec fn cpu_op_unused_platform(w: u32) -> bool;

/// Whether the word decodes, as CPU, to `cache`.
pub uninterp spec fn cpu_op_cache(w: u32) -> bool;

/// Whether the word decodes, as CPU, to a COP2 load or store (`lwc2`,
/// `ldc2`, `swc2`, `sdc2`).
pub uninterp spec fn cpu_op_cop2_mem(w: u32) -> bool;

/// Whether the word decodes, as CPU, to `ctc0` or `cfc0`.
pub uninterp spec fn cpu_op_ctc0_cfc0(w: u32) -> bool;

/// Whether the word decodes, as CPU, to `pref`.
pub uninterp spec fn cpu_op_pref(w: u32) -> bool;

/// Whether the word decodes, as CPU, to `nop`.
pub uninterp spec fn cpu_op_nop(w: u32) -> bool;

/// Whether the word decodes, as CPU, to `jr`.
pub uninterp spec fn cpu_op_jr(w: u32) -> bool;

/// Whether the word decodes, as CPU, to a constant-amount shift (`sll`,
/// `srl`, `sra`, and their doubleword forms).
pub uninterp spec fn cpu_op_const_shift(w: u32) -> bool;

/// Whether the word decodes, as CPU, to `mthi` or `mtlo`.
pub uninterp spec fn cpu_op_mthi_mtlo(w: u32) -> bool;

/// Whether the word decodes, as CPU, to a branch on the COP1 condition flag
/// (`bc1t`, `bc1f`, `bc1tl`, `bc1fl`).
pub uninterp spec fn cpu_op_cop1_branch(w: u32) -> bool;

/// Whether the word decodes, as CPU, to trap-on-overflow arithmetic (`add`,
/// `addi`, `sub`).
pub uninterp spec fn cpu_op_trapping_arith(w: u32) -> bool;

/// Whether the word decodes, as CPU, to an unconditional non-linking
/// transfer of control (`b`, `j`, `jr`).
pub uninterp spec fn cpu_op_uncond_jump(w: u32) -> bool;

/// Whether the word decodes, as CPU, to `b`.
pub uninterp spec fn cpu_op_b(w: u32) -> bool;

/// Whether the word decodes, as CPU, to `j`.
pub uninterp spec fn cpu_op_j(w: u32) -> bool;

/// Whether the word decodes, as CPU, to `lui`.
pub uninterp spec fn cpu_op_lui(w: u32) -> bool;

/// Whether the word decodes, as CPU, to `mtc1`.
pub uninterp spec fn cpu_op_mtc1(w: u32) -> bool;

/// Whether the word decodes, as CPU, to `ori`.
pub uninterp spec fn cpu_op_ori(w: u32) -> bool;

/// Whether the word decodes, as CPU, to `break`.
pub uninterp spec fn cpu_op_break(w: u32) -> bool;

/// Whether the word decodes, as CPU, to `mfhi` or `mflo`.
pub uninterp spec fn cpu_op_mfhi_mflo(w: u32) -> bool;

/// Whether the word decodes, as CPU, to `addiu`.
pub uninterp spec fn cpu_op_addiu(w: u32) -> bool;

/// Whether the RSP decoder reports the word as a structurally valid
/// instruction.
pub uninterp spec fn rsp_valid_bits(w: u32) -> bool;

/// Whether the RSP decoder recognises the word's opcode at all.
pub uninterp spec fn rsp_recognized(w: u32) -> bool;

/// Whether the word, decoded as RSP, writes the general-purpose register
/// named by its `rd` field.
pub uninterp spec fn rsp_modifies_rd(w: u32) -> bool;

/// Whether the word, decoded as RSP, writes the general-purpose register
/// named by its `rt` field.
pub uninterp spec fn rsp_modifies_rt(w: u32) -> bool;

/// Whether the word, decoded as RSP, dereferences memory.
pub uninterp spec fn rsp_dereferences(w: u32) -> bool;

/// Whether the word decodes, as RSP, to `mtc0` or `mfc0`.
pub uninterp spec fn rsp_op_mtc0_mfc0(w: u32) -> bool;

/// Relies on rabbitizer's `Instruction::is_valid` under CPU decoding.
#[verifier::external_body]
pub(crate) fn query_cpu_valid_bits(w: u32) -> (r: bool)
    ensures
        r == cpu_valid_bits(w),
{
    rabbitizer::Instruction::new(w, 0, rabbitizer::InstrCategory::CPU).is_valid()
}

/// Relies on rabbitizer's CPU decoder assigning `unique_id`: the id is not
/// the `cpu_INVALID` sentinel.
#[verifier::external_body]
pub(crate) fn query_cpu_recognized(w: u32) -> (r: bool)
    ensures
        r == cpu_recognized(w),
{
    let instr = rabbitizer::Instruction::new(w, 0, rabbitizer::InstrCategory::CPU);
    !matches!(instr.unique_id, rabbitizer::InstrId::cpu_INVALID)
}

/// Relies on rabbitizer's `Instruction::does_dereference` under CPU decoding.
#[verifier::external_body]
pub(crate) fn query_cpu_dereferences(w: u32) -> (r: bool)
    ensures
        r == cpu_dereferences(w),
{
    rabbitizer::Instruction::new(w, 0, rabbitizer::InstrCategory::CPU).does_dereference()
}

/// Relies on rabbitizer's `Instruction::does_load` under CPU decoding.
#[verifier::external_body]
pub(crate) fn query_cpu_loads(w: u32) -> (r: bool)
    ensures
        r == cpu_loads(w),
{
    rabbitizer::Instruction::new(w, 0, rabbitizer::InstrCategory::CPU).does_load()
}

/// Relies on rabbitizer's `Instruction::does_store` under CPU decoding.
#[verifier::external_body]
pub(crate) fn query_cpu_stores(w: u32) -> (r: bool)
    ensures
        r == cpu_stores(w),
{
    rabbitizer::Instruction::new(w, 0, rabbitizer::InstrCategory::CPU).does_store()
}

/// Relies on rabbitizer's `Instruction::modifies_rd` under CPU decoding.
#[verifier::external_body]
pub(crate) fn query_cpu_modifies_rd(w: u32) -> (r: bool)
    ensures
        r == cpu_modifies_rd(w),
{
    rabbitizer::Instruction::new(w, 0, rabbitizer::InstrCategory::CPU).modifies_rd()
}

/// Relies on rabbitizer's `Instruction::modifies_rt` under CPU decoding.
#[verifier::external_body]
pub(crate) fn query_cpu_modifies_rt(w: u32) -> (r: bool)
    ensures
        r == cpu_modifies_rt(w),
{
    rabbitizer::Instruction::new(w, 0, rabbitizer::InstrCategory::CPU).modifies_rt()
}

/// Relies on rabbitizer's `Instruction::is_trap` under CPU decoding.
#[verifier::external_body]
pub(crate) fn query_cpu_traps(w: u32) -> (r: bool)
    ensures
        r == cpu_traps(w),
{
    rabbitizer::Instruction::new(w, 0, rabbitizer::InstrCategory::CPU).is_trap()
}

/// Relies on rabbitizer's `Instruction::does_link` under CPU decoding.
#[verifier::external_body]
pub(crate) fn query_cpu_links(w: u32) -> (r: bool)
    ensures
        r == cpu_links(w),
{
    rabbitizer::Instruction::new(w, 0, rabbitizer::InstrCategory::CPU).does_link()
}

/// Relies on rabbitizer's `Instruction::reads_rs` under CPU decoding.
#[verifier::external_body]
pub(crate) fn query_cpu_reads_rs(w: u32) -> (r: bool)
    ensures
        r == cpu_reads_rs(w),
{
    rabbitizer::Instruction::new(w, 0, rabbitizer::InstrCategory::CPU).reads_rs()
}

/// Relies on rabbitizer's `Instruction::reads_rt` under CPU decoding.
#[verifier::external_body]
pub(crate) fn query_cpu_reads_rt(w: u32) -> (r: bool)
    ensures
        r == cpu_reads_rt(w),
{
    rabbitizer::Instruction::new(w, 0, rabbitizer::InstrCategory::CPU).reads_rt()
}

/// Relies on rabbitizer's `Instruction::reads_rd` under CPU decoding.
#[verifier::external_body]
pub(crate) fn query_cpu_reads_rd(w: u32) -> (r: bool)
    ensures
        r == cpu_reads_rd(w),
{
    rabbitizer::Instruction::new(w, 0, rabbitizer::InstrCategory::CPU).reads_rd()
}

/// Relies on rabbitizer's `Instruction::reads_fs` under CPU decoding.
#[verifier::external_body]
pub(crate) fn query_cpu_reads_fs(w: u32) -> (r: bool)
    ensures
        r == cpu_reads_fs(w),
{
    rabbitizer::Instruction::new(w, 0, rabbitizer::InstrCategory::CPU).reads_fs()
}

/// Relies on rabbitizer's `Instruction::reads_ft` under CPU decoding.
#[verifier::external_body]
pub(crate) fn query_cpu_reads_ft(w: u32) -> (r: bool)
    ensures
        r == cpu_reads_ft(w),
{
    rabbitizer::Instruction::new(w, 0, rabbitizer::InstrCategory::CPU).reads_ft()
}

/// Relies on rabbitizer's `Instruction::reads_fd` under CPU decoding.
#[verifier::external_body]
pub(crate) fn query_cpu_reads_fd(w: u32) -> (r: bool)
    ensures
        r == cpu_reads_fd(w),
{
    rabbitizer::Instruction::new(w, 0, rabbitizer::InstrCategory::CPU).reads_fd()
}

/// Relies on rabbitizer's CPU `unique_id`: the word is `mtc0` or `mfc0`.
#[verifier::external_body]
pub(crate) fn query_cpu_op_mtc0_mfc0(w: u32) -> (r: bool)
    ensures
        r == cpu_op_mtc0_mfc0(w),
{
    let instr = rabbitizer::Instruction::new(w, 0, rabbitizer::InstrCategory::CPU);
    matches!(instr.unique_id, rabbitizer::InstrId::cpu_mtc0 | rabbitizer::InstrId::cpu_mfc0)
}

/// Relies on rabbitizer's CPU `unique_id`: the word is `ll`, `sc`, `lld`,
/// `scd` or `syscall`.
#[verifier::external_body]
pub(crate) fn query_cpu_op_unused_platform(w: u32) -> (r: bool)
    ensures
        r == cpu_op_unused_platform(w),
{
    let instr = rabbitizer::Instruction::new(w, 0, rabbitizer::InstrCategory::CPU);
    matches!(
        instr.unique_id,
        rabbitizer::InstrId::cpu_ll | rabbitizer::InstrId::cpu_sc | rabbitizer::InstrId::cpu_lld
            | rabbitizer::InstrId::cpu_scd | rabbitizer::InstrId::cpu_syscall
    )
}

/// Relies on rabbitizer's CPU `unique_id`: the word is `cache`.
#[verifier::external_body]
pub(crate) fn query_cpu_op_cache(w: u32) -> (r: bool)
    ensures
        r == cpu_op_cache(w),
{
    let instr = rabbitizer::Instruction::new(w, 0, rabbitizer::InstrCategory::CPU);
    matches!(instr.unique_id, rabbitizer::InstrId::cpu_cache)
}

/// Relies on rabbitizer's CPU `unique_id`: the word is `lwc2`, `ldc2`,
/// `swc2` or `sdc2`.
#[verifier::external_body]
pub(crate) fn query_cpu_op_cop2_mem(w: u32) -> (r: bool)
    ensures
        r == cpu_op_cop2_mem(w),
{
    let instr = rabbitizer::Instruction::new(w, 0, rabbitizer::InstrCategory::CPU);
    matches!(
        instr.unique_id,
        rabbitizer::InstrId::cpu_lwc2 | rabbitizer::InstrId::cpu_ldc2
            | rabbitizer::InstrId::cpu_swc2 | rabbitizer::InstrId::cpu_sdc2
    )
}

/// Relies on rabbitizer's CPU `unique_id`: the word is `ctc0` or `cfc0`.
#[verifier::external_body]
pub(crate) fn query_cpu_op_ctc0_cfc0(w: u32) -> (r: bool)
    ensures
        r == cpu_op_ctc0_cfc0(w),
{
    let instr = rabbitizer::Instruction::new(w, 0, rabbitizer::InstrCategory::CPU);
    matches!(instr.unique_id, rabbitizer::InstrId::cpu_ctc0 | rabbitizer::InstrId::cpu_cfc0)
}

/// Relies on rabbitizer's CPU `unique_id`: the word is `pref`.
#[verifier::external_body]
pub(crate) fn query_cpu_op_pref(w: u32) -> (r: bool)
    ensures
        r == cpu_op_pref(w),
{
    let instr = rabbitizer::Instruction::new(w, 0, rabbitizer::InstrCategory::CPU);
    matches!(instr.unique_id, rabbitizer::InstrId::cpu_pref)
}

/// Relies on rabbitizer's CPU `unique_id`: the word is `nop`.
#[verifier::external_body]
pub(crate) fn query_cpu_op_nop(w: u32) -> (r: bool)
    ensures
        r == cpu_op_nop(w),
{
    let instr = rabbitizer::Instruction::new(w, 0, rabbitizer::InstrCategory::CPU);
    matches!(instr.unique_id, rabbitizer::InstrId::cpu_nop)
}

/// Relies on rabbitizer's CPU `unique_id`: the word is `jr`.
#[verifier::external_body]
pub(crate) fn query_cpu_op_jr(w: u32) -> (r: bool)
    ensures
        r == cpu_op_jr(w),
{
    let instr = rabbitizer::Instruction::new(w, 0, rabbitizer::InstrCategory::CPU);
    matches!(instr.unique_id, rabbitizer::InstrId::cpu_jr)
}

/// Relies on rabbitizer's CPU `unique_id`: the word is one of the
/// constant-amount shifts `sll`, `srl`, `sra`, `dsll`, `dsll32`, `dsrl`,
/// `dsrl32`, `dsra`, `dsra32`.
#[verifier::external_body]
pub(crate) fn query_cpu_op_const_shift(w: u32) -> (r: bool)
    ensures
        r == cpu_op_const_shift(w),
{
    let instr = rabbitizer::Instruction::new(w, 0, rabbitizer::InstrCategory::CPU);
    matches!(
        instr.unique_id,
        rabbitizer::InstrId::cpu_sll | rabbitizer::InstrId::cpu_srl | rabbitizer::InstrId::cpu_sra
            | rabbitizer::InstrId::cpu_dsll | rabbitizer::InstrId::cpu_dsll32
            | rabbitizer::InstrId::cpu_dsrl | rabbitizer::InstrId::cpu_dsrl32
            | rabbitizer::InstrId::cpu_dsra | rabbitizer::InstrId::cpu_dsra32
    )
}

/// Relies on rabbitizer's CPU `unique_id`: the word is `mthi` or `mtlo`.
#[verifier::external_body]
pub(crate) fn query_cpu_op_mthi_mtlo(w: u32) -> (r: bool)
    ensures
        r == cpu_op_mthi_mtlo(w),
{
    let instr = rabbitizer::Instruction::new(w, 0, rabbitizer::InstrCategory::CPU);
    matches!(instr.unique_id, rabbitizer::InstrId::cpu_mthi | rabbitizer::InstrId::cpu_mtlo)
}

/// Relies on rabbitizer's CPU `unique_id`: the word is `bc1t`, `bc1f`,
/// `bc1tl` or `bc1fl`.
#[verifier::external_body]
pub(crate) fn query_cpu_op_cop1_branch(w: u32) -> (r: bool)
    ensures
        r == cpu_op_cop1_branch(w),
{
    let instr = rabbitizer::Instruction::new(w, 0, rabbitizer::InstrCategory::CPU);
    matches!(
        instr.unique_id,
        rabbitizer::InstrId::cpu_bc1t | rabbitizer::InstrId::cpu_bc1f
            | rabbitizer::InstrId::cpu_bc1tl | rabbitizer::InstrId::cpu_bc1fl
    )
}

/// Relies on rabbitizer's CPU `unique_id`: the word is `add`, `addi` or
/// `sub`.
#[verifier::external_body]
pub(crate) fn query_cpu_op_trapping_arith(w: u32) -> (r: bool)
    ensures
        r == cpu_op_trapping_arith(w),
{
    let instr = rabbitizer::Instruction::new(w, 0, rabbitizer::InstrCategory::CPU);
    matches!(
        instr.unique_id,
        rabbitizer::InstrId::cpu_add | rabbitizer::InstrId::cpu_addi | rabbitizer::InstrId::cpu_sub
    )
}

/// Relies on rabbitizer's CPU `unique_id`: the word is `b`, `j` or `jr`.
#[verifier::external_body]
pub(crate) fn query_cpu_op_uncond_jump(w: u32) -> (r: bool)
    ensures
        r == cpu_op_uncond_jump(w),
{
    let instr = rabbitizer::Instruction::new(w, 0, rabbitizer::InstrCategory::CPU);
    matches!(
        instr.unique_id,
        rabbitizer::InstrId::cpu_b | rabbitizer::InstrId::cpu_j | rabbitizer::InstrId::cpu_jr
    )
}

/// Relies on rabbitizer's CPU `unique_id`: the word is `b`.
#[verifier::external_body]
pub(crate) fn query_cpu_op_b(w: u32) -> (r: bool)
    ensures
        r == cpu_op_b(w),
{
    let instr = rabbitizer::Instruction::new(w, 0, rabbitizer::InstrCategory::CPU);
    matches!(instr.unique_id, rabbitizer::InstrId::cpu_b)
}

/// Relies on rabbitizer's CPU `unique_id`: the word is `j`.
#[verifier::external_body]
pub(crate) fn query_cpu_op_j(w: u32) -> (r: bool)
    ensures
        r == cpu_op_j(w),
{
    let instr = rabbitizer::Instruction::new(w, 0, rabbitizer::InstrCategory::CPU);
    matches!(instr.unique_id, rabbitizer::InstrId::cpu_j)
}

/// Relies on rabbitizer's CPU `unique_id`: the word is `lui`.
#[verifier::external_body]
pub(crate) fn query_cpu_op_lui(w: u32) -> (r: bool)
    ensures
        r == cpu_op_lui(w),
{
    let instr = rabbitizer::Instruction::new(w, 0, rabbitizer::InstrCategory::CPU);
    matches!(instr.unique_id, rabbitizer::InstrId::cpu_lui)
}

/// Relies on rabbitizer's CPU `unique_id`: the word is `mtc1`.
#[verifier::external_body]
pub(crate) fn query_cpu_op_mtc1(w: u32) -> (r: bool)
    ensures
        r == cpu_op_mtc1(w),
{
    let instr = rabbitizer::Instruction::new(w, 0, rabbitizer::InstrCategory::CPU);
    matches!(instr.unique_id, rabbitizer::InstrId::cpu_mtc1)
}

/// Relies on rabbitizer's CPU `unique_id`: the word is `ori`.
#[verifier::external_body]
pub(crate) fn query_cpu_op_ori(w: u32) -> (r: bool)
    ensures
        r == cpu_op_ori(w),
{
    let instr = rabbitizer::Instruction::new(w, 0, rabbitizer::InstrCategory::CPU);
    matches!(instr.unique_id, rabbitizer::InstrId::cpu_ori)
}

/// Relies on rabbitizer's CPU `unique_id`: the word is `break`.
#[verifier::external_body]
pub(crate) fn query_cpu_op_break(w: u32) -> (r: bool)
    ensures
        r == cpu_op_break(w),
{
    let instr = rabbitizer::Instruction::new(w, 0, rabbitizer::InstrCategory::CPU);
    matches!(instr.unique_id, rabbitizer::InstrId::cpu_break)
}

/// Relies on rabbitizer's CPU `unique_id`: the word is `mfhi` or `mflo`.
#[verifier::external_body]
pub(crate) fn query_cpu_op_mfhi_mflo(w: u32) -> (r: bool)
    ensures
        r == cpu_op_mfhi_mflo(w),
{
    let instr = rabbitizer::Instruction::new(w, 0, rabbitizer::InstrCategory::CPU);
    matches!(instr.unique_id, rabbitizer::InstrId::cpu_mfhi | rabbitizer::InstrId::cpu_mflo)
}

/// Relies on rabbitizer's CPU `unique_id`: the word is `addiu`.
#[verifier::external_body]
pub(crate) fn query_cpu_op_addiu(w: u32) -> (r: bool)
    ensures
        r == cpu_op_addiu(w),
{
    let instr = rabbitizer::Instruction::new(w, 0, rabbitizer::InstrCategory::CPU);
    matches!(instr.unique_id, rabbitizer::InstrId::cpu_addiu)
}

/// Relies on rabbitizer's `Instruction::is_valid` under RSP decoding.
#[verifier::external_body]
pub(crate) fn query_rsp_valid_bits(w: u32) -> (r: bool)
    ensures
        r == rsp_valid_bits(w),
{
    rabbitizer::Instruction::new(w, 0, rabbitizer::InstrCategory::RSP).is_valid()
}

/// Relies on rabbitizer's RSP decoder assigning `unique_id`: the id is not
/// the `rsp_INVALID` sentinel.
#[verifier::external_body]
pub(crate) fn query_rsp_recognized(w: u32) -> (r: bool)
    ensures
        r == rsp_recognized(w),
{
    let instr = rabbitizer::Instruction::new(w, 0, rabbitizer::InstrCategory::RSP);
    !matches!(instr.unique_id, rabbitizer::InstrId::rsp_INVALID)
}

/// Relies on rabbitizer's `Instruction::modifies_rd` under RSP decoding.
#[verifier::external_body]
pub(crate) fn query_rsp_modifies_rd(w: u32) -> (r: bool)
    ensures
        r == rsp_modifies_rd(w),
{
    rabbitizer::Instruction::new(w, 0, rabbitizer::InstrCategory::RSP).modifies_rd()
}

/// Relies on rabbitizer's `Instruction::modifies_rt` under RSP decoding.
#[verifier::external_body]
pub(crate) fn query_rsp_modifies_rt(w: u32) -> (r: bool)
    ensures
        r == rsp_modifies_rt(w),
{
    rabbitizer::Instruction::new(w, 0, rabbitizer::InstrCategory::RSP).modifies_rt()
}

/// Relies on rabbitizer's `Instruction::does_dereference` under RSP decoding.
#[verifier::external_body]
pub(crate) fn query_rsp_dereferences(w: u32) -> (r: bool)
    ensures
        r == rsp_dereferences(w),
{
    rabbitizer::Instruction::new(w, 0, rabbitizer::InstrCategory::RSP).does_dereference()
}

/// Relies on rabbitizer's RSP `unique_id`: the word is `mtc0` or `mfc0`.
#[verifier::external_body]
pub(crate) fn query_rsp_op_mtc0_mfc0(w: u32) -> (r: bool)
    ensures
        r == rsp_op_mtc0_mfc0(w),
{
    let instr = rabbitizer::Instruction::new(w, 0, rabbitizer::InstrCategory::RSP);
    matches!(instr.unique_id, rabbitizer::InstrId::rsp_mtc0 | rabbitizer::InstrId::rsp_mfc0)
}

} // verus!
