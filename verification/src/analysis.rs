//! Operand fields, register identifiers, and the invalid-start heuristic
//! that estimates how many leading words of a candidate region are not a
//! plausible function entry point.

use vstd::prelude::*;

verus! {

use crate::decode::cpu_links;
use crate::decode::cpu_stores;
use crate::decode::cpu_modifies_rd;
use crate::decode::cpu_modifies_rt;
use crate::decode::cpu_op_const_shift;
use crate::decode::cpu_op_cop1_branch;
use crate::decode::cpu_op_jr;
use crate::decode::cpu_op_mthi_mtlo;
use crate::decode::cpu_op_nop;
use crate::decode::cpu_op_trapping_arith;
use crate::decode::cpu_op_uncond_jump;
use crate::decode::cpu_reads_fd;
use crate::decode::cpu_reads_fs;
use crate::decode::cpu_reads_ft;
use crate::decode::cpu_reads_rd;
use crate::decode::cpu_reads_rs;
use crate::decode::cpu_reads_rt;
use crate::decode::query_cpu_links;
use crate::decode::query_cpu_stores;
use crate::decode::query_cpu_modifies_rd;
use crate::decode::query_cpu_modifies_rt;
use crate::decode::query_cpu_op_const_shift;
use crate::decode::query_cpu_op_cop1_branch;
use crate::decode::query_cpu_op_jr;
use crate::decode::query_cpu_op_mthi_mtlo;
use crate::decode::query_cpu_op_nop;
use crate::decode::query_cpu_op_trapping_arith;
use crate::decode::query_cpu_op_uncond_jump;
use crate::decode::query_cpu_reads_fd;
use crate::decode::query_cpu_reads_fs;
use crate::decode::query_cpu_reads_ft;
use crate::decode::query_cpu_reads_rd;
use crate::decode::query_cpu_reads_rs;
use crate::decode::query_cpu_reads_rt;
use crate::findcode;
use crate::findcode::RomRegion;
use crate::utils::read_word_at;
use crate::utils::word_at;

/// The five-bit `rs` field of an instruction word (bits 21 to 25).
pub open spec fn rs_field(w: u32) -> u32 {
    (w >> 21) & 0x1F
}

/// The five-bit `rt` field of an instruction word (bits 16 to 20).
pub open spec fn rt_field(w: u32) -> u32 {
    (w >> 16) & 0x1F
}

/// The five-bit `rd` field of an instruction word (bits 11 to 15).
pub open spec fn rd_field(w: u32) -> u32 {
    (w >> 11) & 0x1F
}

/// The five-bit shift-amount field of an instruction word (bits 6 to 10).
pub open spec fn sa_field(w: u32) -> u32 {
    (w >> 6) & 0x1F
}

/// The five-bit `fs` float-register field (bits 11 to 15).
pub open spec fn fs_field(w: u32) -> u32 {
    (w >> 11) & 0x1F
}

/// The five-bit `ft` float-register field (bits 16 to 20).
pub open spec fn ft_field(w: u32) -> u32 {
    (w >> 16) & 0x1F
}

/// The five-bit `fd` float-register field (bits 6 to 10).
pub open spec fn fd_field(w: u32) -> u32 {
    (w >> 6) & 0x1F
}

/// The five-bit coprocessor-0 register field (bits 11 to 15).
pub open spec fn cop0_field(w: u32) -> u32 {
    (w >> 11) & 0x1F
}

proof fn lemma_mask5(x: u32)
    ensures
        x & 0x1F < 32,
{
    assert(x & 0x1F < 32) by (bit_vector);
}

/// An instruction word, as the analyses see it: the raw 32-bit value whose
/// operand fields are read directly and whose decoded facts come from the
/// trusted decoder queries.
pub struct MyInstruction {
    /// The raw big-endian instruction word.
    pub word: u32,
}

impl MyInstruction {
    /// Wraps a raw instruction word.
    pub fn new(word: u32) -> (r: Self)
        ensures
            r.word == word,
    {
        MyInstruction { word }
    }

    /// The `rs` field as a register number.
    pub fn rs_num(&self) -> (r: u32)
        ensures
            r == rs_field(self.word),
            r < 32,
    {
        proof {
            lemma_mask5(self.word >> 21);
        }
        (self.word >> 21) & 0x1F
    }

    /// The `rt` field as a register number.
    pub fn rt_num(&self) -> (r: u32)
        ensures
            r == rt_field(self.word),
            r < 32,
    {
        proof {
            lemma_mask5(self.word >> 16);
        }
        (self.word >> 16) & 0x1F
    }

    /// The `rd` field as a register number.
    pub fn rd_num(&self) -> (r: u32)
        ensures
            r == rd_field(self.word),
            r < 32,
    {
        proof {
            lemma_mask5(self.word >> 11);
        }
        (self.word >> 11) & 0x1F
    }

    /// The shift amount field.
    pub fn instr_get_sa(&self) -> (r: u32)
        ensures
            r == sa_field(self.word),
            r < 32,
    {
        proof {
            lemma_mask5(self.word >> 6);
        }
        (self.word >> 6) & 0x1F
    }

    /// The five-bit operation field in the `rt` position, as carried by the
    /// `cache` instruction.
    pub fn instr_get_op(&self) -> (r: u32)
        ensures
            r == rt_field(self.word),
            r < 32,
    {
        proof {
            lemma_mask5(self.word >> 16);
        }
        (self.word >> 16) & 0x1F
    }

    /// The `fs` field as a float register number.
    pub fn fs_num(&self) -> (r: u32)
        ensures
            r == fs_field(self.word),
            r < 32,
    {
        proof {
            lemma_mask5(self.word >> 11);
        }
        (self.word >> 11) & 0x1F
    }

    /// The `ft` field as a float register number.
    pub fn ft_num(&self) -> (r: u32)
        ensures
            r == ft_field(self.word),
            r < 32,
    {
        proof {
            lemma_mask5(self.word >> 16);
        }
        (self.word >> 16) & 0x1F
    }

    /// The `fd` field as a float register number.
    pub fn fd_num(&self) -> (r: u32)
        ensures
            r == fd_field(self.word),
            r < 32,
    {
        proof {
            lemma_mask5(self.word >> 6);
        }
        (self.word >> 6) & 0x1F
    }

    /// The coprocessor-0 register named by the word, or the raw field value
    /// when that number is reserved.
    pub fn instr_get_cop0_rd(&self) -> (r: Result<MipsCop0r, u32>)
        ensures
            r == match spec_cpu_cop0(cop0_field(self.word)) {
                Some(reg) => Ok::<MipsCop0r, u32>(reg),
                None => Err::<MipsCop0r, u32>(cop0_field(self.word)),
            },
    {
        proof {
            lemma_mask5(self.word >> 11);
        }
        let reg_num = (self.word >> 11) & 0x1F;
        match cop0r_from_u32(reg_num) {
            Some(reg) => Ok(reg),
            None => Err(reg_num),
        }
    }
}

/// The architecturally defined coprocessor-0 registers of the platform's
/// CPU; numbers 7, 21 to 25, and 31 are reserved.
#[derive(Debug, Clone, Copy, PartialEq, Eq, Structural)]
#[allow(missing_docs)]
pub enum MipsCop0r {
    Index,
    Random,
    EntryLo0,
    EntryLo1,
    Context,
    PageMask,
    Wired,
    BadVaddr,
    Count,
    EntryHi,
    Compare,
    Status,
    Cause,
    EPC,
    PRevID,
    Config,
    LLAddr,
    WatchLo,
    WatchHi,
    XContext,
    PErr,
    CacheErr,
    TagLo,
    TagHi,
    ErrorEPC,
}

/// The coprocessor-0 register a five-bit field names, or `None` when the
/// number is reserved.
pub open spec fn spec_cpu_cop0(n: u32) -> Option<MipsCop0r> {
    if n == 0 {
        Some(MipsCop0r::Index)
    } else if n == 1 {
        Some(MipsCop0r::Random)
    } else if n == 2 {
        Some(MipsCop0r::EntryLo0)
    } else if n == 3 {
        Some(MipsCop0r::EntryLo1)
    } else if n == 4 {
        Some(MipsCop0r::Context)
    } else if n == 5 {
        Some(MipsCop0r::PageMask)
    } else if n == 6 {
        Some(MipsCop0r::Wired)
    } else if n == 8 {
        Some(MipsCop0r::BadVaddr)
    } else if n == 9 {
        Some(MipsCop0r::Count)
    } else if n == 10 {
        Some(MipsCop0r::EntryHi)
    } else if n == 11 {
        Some(MipsCop0r::Compare)
    } else if n == 12 {
        Some(MipsCop0r::Status)
    } else if n == 13 {
        Some(MipsCop0r::Cause)
    } else if n == 14 {
        Some(MipsCop0r::EPC)
    } else if n == 15 {
        Some(MipsCop0r::PRevID)
    } else if n == 16 {
        Some(MipsCop0r::Config)
    } else if n == 17 {
        Some(MipsCop0r::LLAddr)
    } else if n == 18 {
        Some(MipsCop0r::WatchLo)
    } else if n == 19 {
        Some(MipsCop0r::WatchHi)
    } else if n == 20 {
        Some(MipsCop0r::XContext)
    } else if n == 26 {
        Some(MipsCop0r::PErr)
    } else if n == 27 {
        Some(MipsCop0r::CacheErr)
    } else if n == 28 {
        Some(MipsCop0r::TagLo)
    } else if n == 29 {
        Some(MipsCop0r::TagHi)
    } else if n == 30 {
        Some(MipsCop0r::ErrorEPC)
    } else {
        None
    }
}

/// Whether a five-bit coprocessor-0 field names a defined (non-reserved)
/// register of the platform's CPU.
pub open spec fn cpu_cop0_defined(n: u32) -> bool {
    spec_cpu_cop0(n) is Some
}

/// Converts a five-bit field to the coprocessor-0 register it names, or
/// `None` when the number is reserved.
pub fn cop0r_from_u32(n: u32) -> (r: Option<MipsCop0r>)
    ensures
        r == spec_cpu_cop0(n),
{
    if n == 0 {
        Some(MipsCop0r::Index)
    } else if n == 1 {
        Some(MipsCop0r::Random)
    } else if n == 2 {
        Some(MipsCop0r::EntryLo0)
    } else if n == 3 {
        Some(MipsCop0r::EntryLo1)
    } else if n == 4 {
        Some(MipsCop0r::Context)
    } else if n == 5 {
        Some(MipsCop0r::PageMask)
    } else if n == 6 {
        Some(MipsCop0r::Wired)
    } else if n == 8 {
        Some(MipsCop0r::BadVaddr)
    } else if n == 9 {
        Some(MipsCop0r::Count)
    } else if n == 10 {
        Some(MipsCop0r::EntryHi)
    } else if n == 11 {
        Some(MipsCop0r::Compare)
    } else if n == 12 {
        Some(MipsCop0r::Status)
    } else if n == 13 {
        Some(MipsCop0r::Cause)
    } else if n == 14 {
        Some(MipsCop0r::EPC)
    } else if n == 15 {
        Some(MipsCop0r::PRevID)
    } else if n == 16 {
        Some(MipsCop0r::Config)
    } else if n == 17 {
        Some(MipsCop0r::LLAddr)
    } else if n == 18 {
        Some(MipsCop0r::WatchLo)
    } else if n == 19 {
        Some(MipsCop0r::WatchHi)
    } else if n == 20 {
        Some(MipsCop0r::XContext)
    } else if n == 26 {
        Some(MipsCop0r::PErr)
    } else if n == 27 {
        Some(MipsCop0r::CacheErr)
    } else if n == 28 {
        Some(MipsCop0r::TagLo)
    } else if n == 29 {
        Some(MipsCop0r::TagHi)
    } else if n == 30 {
        Some(MipsCop0r::ErrorEPC)
    } else {
        None
    }
}

/// Treat `$v0` and `$fv0` as initialized registers. A common compiler uses
/// these for the first uninitialized variable reference for integers and
/// floats respectively, so enabling this policy avoids rejecting functions
/// that begin with a reference to an uninitialized local variable.
pub const WEAK_UNINITIALIZED_CHECK: bool = true;

/// The general-purpose registers a function prologue may rely on without
/// writing them first: `$zero` (0), `$v0` (2, weak policy), the argument
/// registers `$a0` to `$a3` (4 to 7), `$sp` (29) and `$ra` (31).
pub open spec fn gpr_start_initialized(reg: u32) -> bool {
    ||| reg == 0
    ||| reg == 29
    ||| reg == 31
    ||| (4 <= reg <= 7)
    ||| (WEAK_UNINITIALIZED_CHECK && reg == 2)
}

/// The float registers a function prologue may rely on: the argument
/// register pairs `$fa0`/`$fa0f` (12, 13) and `$fa1`/`$fa1f` (14, 15), and
/// the `$fv0` pair (0, 1) under the weak policy.
pub open spec fn fpr_start_initialized(reg: u32) -> bool {
    ||| (12 <= reg <= 15)
    ||| (WEAK_UNINITIALIZED_CHECK && (reg == 0 || reg == 1))
}

fn gpr_initialized(reg: u32) -> (r: bool)
    ensures
        r == gpr_start_initialized(reg),
{
    reg == 0 || reg == 29 || reg == 31 || (4 <= reg && reg <= 7) || (WEAK_UNINITIALIZED_CHECK
        && reg == 2)
}

fn fpr_initialized(reg: u32) -> (r: bool)
    ensures
        r == fpr_start_initialized(reg),
{
    (12 <= reg && reg <= 15) || (WEAK_UNINITIALIZED_CHECK && (reg == 0 || reg == 1))
}

/// Whether the word reads, through any of its register operands, a register
/// that is not initialized at a function entry point.
pub open spec fn spec_references_uninitialized(w: u32) -> bool {
    ||| (cpu_reads_rs(w) && !gpr_start_initialized(rs_field(w)))
    ||| (cpu_reads_rt(w) && !gpr_start_initialized(rt_field(w)))
    ||| (cpu_reads_rd(w) && !gpr_start_initialized(rd_field(w)))
    ||| (cpu_reads_fs(w) && !fpr_start_initialized(fs_field(w)))
    ||| (cpu_reads_ft(w) && !fpr_start_initialized(ft_field(w)))
    ||| (cpu_reads_fd(w) && !fpr_start_initialized(fd_field(w)))
}

// Checks if an instruction references an uninitialized register. For each
// operand the instruction uses as an input, the corresponding register must
// be one of the prologue-initialized set.
fn references_uninitialized(my_instruction: &MyInstruction) -> (r: bool)
    ensures
        r == spec_references_uninitialized(my_instruction.word),
{
    let w = my_instruction.word;
    if query_cpu_reads_rs(w) && !gpr_initialized(my_instruction.rs_num()) {
        return true;
    }
    if query_cpu_reads_rt(w) && !gpr_initialized(my_instruction.rt_num()) {
        return true;
    }
    if query_cpu_reads_rd(w) && !gpr_initialized(my_instruction.rd_num()) {
        return true;
    }
    if query_cpu_reads_fs(w) && !fpr_initialized(my_instruction.fs_num()) {
        return true;
    }
    if query_cpu_reads_ft(w) && !fpr_initialized(my_instruction.ft_num()) {
        return true;
    }
    if query_cpu_reads_fd(w) && !fpr_initialized(my_instruction.fd_num()) {
        return true;
    }
    false
}

/// The invalid-start rule: whether a word is implausible as the first
/// instruction of a function.
pub open spec fn spec_is_invalid_start(w: u32) -> bool {
    ||| !findcode::spec_is_valid(w)
    ||| cpu_op_nop(w)
    ||| (cpu_op_jr(w) && rs_field(w) == 0)
    ||| (cpu_op_const_shift(w) && rt_field(w) == 0 && sa_field(w) != 0)
    ||| cpu_op_mthi_mtlo(w)
    ||| cpu_op_cop1_branch(w)
    ||| cpu_op_trapping_arith(w)
    ||| (cpu_modifies_rd(w) && rd_field(w) == 0)
    ||| (cpu_modifies_rt(w) && rt_field(w) == 0)
    ||| spec_references_uninitialized(w)
    ||| cpu_op_uncond_jump(w)
    ||| cpu_links(w)
    ||| (cpu_stores(w) && rs_field(w) == 31)
}

/// Checks whether a word is (probably) invalid at the beginning of a region
/// of code.
pub fn is_invalid_start_instruction(my_instruction: &MyInstruction) -> (r: bool)
    ensures
        r == spec_is_invalid_start(my_instruction.word),
{
    let w = my_instruction.word;

    // Check if this is a valid instruction to begin with
    if !findcode::is_valid(my_instruction) {
        return true;
    }
    // Code probably won't start with a nop (some functions do, but it'll
    // just be one nop that can be recovered later)
    if query_cpu_op_nop(w) {
        return true;
    }
    // Code shouldn't jump to $zero
    if query_cpu_op_jr(w) && my_instruction.rs_num() == 0 {
        return true;
    }
    // Shifts with $zero as the input and a non-zero shift amount are likely
    // not real code
    if query_cpu_op_const_shift(w) && my_instruction.rt_num() == 0 && my_instruction.instr_get_sa()
        != 0 {
        return true;
    }
    // Code probably won't start with mthi or mtlo
    if query_cpu_op_mthi_mtlo(w) {
        return true;
    }
    // Code shouldn't start with branches based on the cop1 condition flag
    // (it won't have been set yet)
    if query_cpu_op_cop1_branch(w) {
        return true;
    }
    // add/sub and addi are good indicators that the bytes aren't actually
    // instructions, since addu/subu and addiu would normally be used
    if query_cpu_op_trapping_arith(w) {
        return true;
    }
    // Code shouldn't output to $zero
    if query_cpu_modifies_rd(w) && my_instruction.rd_num() == 0 {
        return true;
    }
    if query_cpu_modifies_rt(w) && my_instruction.rt_num() == 0 {
        return true;
    }
    // Code shouldn't start with a reference to a register that isn't
    // initialized
    if references_uninitialized(my_instruction) {
        return true;
    }
    // Code shouldn't start with an unconditional branch
    if query_cpu_op_uncond_jump(w) {
        return true;
    }
    // Code shouldn't start with a linked jump, as it'd need to save the
    // return address first
    if query_cpu_links(w) {
        return true;
    }
    // Code shouldn't start with a store relative to $ra: overwriting the
    // return address at entry is implausible
    if query_cpu_stores(w) && my_instruction.rs_num() == 31 {
        return true;
    }
    false
}

/// How many consecutive words, starting at byte offset `i`, fail the
/// invalid-start rule; the count stops at the first plausible function
/// start, or at the end of the buffer.
pub open spec fn invalid_start_count_from(rom: Seq<u8>, i: int) -> int
    decreases rom.len() - i,
{
    if i + 4 > rom.len() {
        0
    } else if !spec_is_invalid_start(word_at(rom, i)) {
        0
    } else {
        1 + invalid_start_count_from(rom, i + 4)
    }
}

/// Start-trim law, rejecting half: a region whose first word reads a
/// register the initial table marks uninitialized is flagged, so at least
/// that word is trimmed past.
pub proof fn lemma_uninitialized_read_is_trimmed(rom: Seq<u8>, s: int)
    requires
        0 <= s <= rom.len(),
        s + 4 <= rom.len(),
        spec_references_uninitialized(word_at(rom, s)),
    ensures
        invalid_start_count_from(rom, s) >= 1,
{
    lemma_invalid_count_nonneg(rom, s + 4);
}

/// Start-trim law, accepting half: a region whose first word is a plausible
/// function start — for one, an instruction reading only registers the
/// initial table marks initialized, such as the argument registers — is not
/// trimmed at all.
pub proof fn lemma_plausible_start_is_kept(rom: Seq<u8>, s: int)
    requires
        !spec_is_invalid_start(word_at(rom, s)),
    ensures
        invalid_start_count_from(rom, s) == 0,
{
}

proof fn lemma_invalid_count_nonneg(rom: Seq<u8>, i: int)
    ensures
        invalid_start_count_from(rom, i) >= 0,
    decreases rom.len() - i,
{
    if i + 4 > rom.len() {
    } else if !spec_is_invalid_start(word_at(rom, i)) {
    } else {
        lemma_invalid_count_nonneg(rom, i + 4);
    }
}

/// Counts how many leading words of the region are implausible as a
/// function entry, judging every word against the same initial register
/// state.
pub fn count_invalid_start_instructions(region: &RomRegion, rom_bytes: &[u8]) -> (r: usize)
    requires
        0 <= region@.start <= rom_bytes@.len(),
    ensures
        r == invalid_start_count_from(rom_bytes@, region@.start),
{
    let start = region.rom_start();
    let mut i: usize = start;
    let mut count: usize = 0;
    loop
        invariant
            start <= i <= rom_bytes@.len(),
            4 * count == i - start,
            invalid_start_count_from(rom_bytes@, start as int) == count
                + invalid_start_count_from(rom_bytes@, i as int),
        ensures
            invalid_start_count_from(rom_bytes@, start as int) == count,
        decreases rom_bytes@.len() - i,
    {
        if rom_bytes.len() - i < 4 {
            break ;
        }
        let my_instruction = MyInstruction::new(read_word_at(rom_bytes, i));
        if !is_invalid_start_instruction(&my_instruction) {
            break ;
        }
        i = i + 4;
        count = count + 1;
    }
    count
}


/// The 32 general-purpose registers, in architectural order.
#[derive(Debug, Clone, Copy, PartialEq, Eq, Hash, Structural)]
#[allow(non_camel_case_types)]
#[allow(missing_docs)]
pub enum MipsGpr {
    zero,
    at,
    v0,
    v1,
    a0,
    a1,
    a2,
    a3,
    t0,
    t1,
    t2,
    t3,
    t4,
    t5,
    t6,
    t7,
    s0,
    s1,
    s2,
    s3,
    s4,
    s5,
    s6,
    s7,
    t8,
    t9,
    k0,
    k1,
    gp,
    sp,
    fp,
    ra,
}

/// The 32 floating-point registers, in architectural order.
#[derive(Debug, Clone, Copy, PartialEq, Eq, Hash, Structural)]
#[allow(non_camel_case_types)]
#[allow(missing_docs)]
pub enum MipsFpr {
    fv0,
    fv0f,
    fv1,
    fv1f,
    ft0,
    ft0f,
    ft1,
    ft1f,
    ft2,
    ft2f,
    ft3,
    ft3f,
    fa0,
    fa0f,
    fa1,
    fa1f,
    ft4,
    ft4f,
    ft5,
    ft5f,
    fs0,
    fs0f,
    fs1,
    fs1f,
    fs2,
    fs2f,
    fs3,
    fs3f,
    fs4,
    fs4f,
    fs5,
    fs5f,
}

/// The general-purpose register a five-bit field names; fields of 31 and
/// below name every register, so out-of-range values (which no masked field
/// produces) fall back to `$ra`.
pub open spec fn spec_gpr_from(n: u32) -> MipsGpr {
    if n == 0 {
        MipsGpr::zero
    } else if n == 1 {
        MipsGpr::at
    } else if n == 2 {
        MipsGpr::v0
    } else if n == 3 {
        MipsGpr::v1
    } else if n == 4 {
        MipsGpr::a0
    } else if n == 5 {
        MipsGpr::a1
    } else if n == 6 {
        MipsGpr::a2
    } else if n == 7 {
        MipsGpr::a3
    } else if n == 8 {
        MipsGpr::t0
    } else if n == 9 {
        MipsGpr::t1
    } else if n == 10 {
        MipsGpr::t2
    } else if n == 11 {
        MipsGpr::t3
    } else if n == 12 {
        MipsGpr::t4
    } else if n == 13 {
        MipsGpr::t5
    } else if n == 14 {
        MipsGpr::t6
    } else if n == 15 {
        MipsGpr::t7
    } else if n == 16 {
        MipsGpr::s0
    } else if n == 17 {
        MipsGpr::s1
    } else if n == 18 {
        MipsGpr::s2
    } else if n == 19 {
        MipsGpr::s3
    } else if n == 20 {
        MipsGpr::s4
    } else if n == 21 {
        MipsGpr::s5
    } else if n == 22 {
        MipsGpr::s6
    } else if n == 23 {
        MipsGpr::s7
    } else if n == 24 {
        MipsGpr::t8
    } else if n == 25 {
        MipsGpr::t9
    } else if n == 26 {
        MipsGpr::k0
    } else if n == 27 {
        MipsGpr::k1
    } else if n == 28 {
        MipsGpr::gp
    } else if n == 29 {
        MipsGpr::sp
    } else if n == 30 {
        MipsGpr::fp
    } else if n == 31 {
        MipsGpr::ra
    } else {
        MipsGpr::ra
    }
}

/// The floating-point register a five-bit field names, with the same
/// convention as `spec_gpr_from`.
pub open spec fn spec_fpr_from(n: u32) -> MipsFpr {
    if n == 0 {
        MipsFpr::fv0
    } else if n == 1 {
        MipsFpr::fv0f
    } else if n == 2 {
        MipsFpr::fv1
    } else if n == 3 {
        MipsFpr::fv1f
    } else if n == 4 {
        MipsFpr::ft0
    } else if n == 5 {
        MipsFpr::ft0f
    } else if n == 6 {
        MipsFpr::ft1
    } else if n == 7 {
        MipsFpr::ft1f
    } else if n == 8 {
        MipsFpr::ft2
    } else if n == 9 {
        MipsFpr::ft2f
    } else if n == 10 {
        MipsFpr::ft3
    } else if n == 11 {
        MipsFpr::ft3f
    } else if n == 12 {
        MipsFpr::fa0
    } else if n == 13 {
        MipsFpr::fa0f
    } else if n == 14 {
        MipsFpr::fa1
    } else if n == 15 {
        MipsFpr::fa1f
    } else if n == 16 {
        MipsFpr::ft4
    } else if n == 17 {
        MipsFpr::ft4f
    } else if n == 18 {
        MipsFpr::ft5
    } else if n == 19 {
        MipsFpr::ft5f
    } else if n == 20 {
        MipsFpr::fs0
    } else if n == 21 {
        MipsFpr::fs0f
    } else if n == 22 {
        MipsFpr::fs1
    } else if n == 23 {
        MipsFpr::fs1f
    } else if n == 24 {
        MipsFpr::fs2
    } else if n == 25 {
        MipsFpr::fs2f
    } else if n == 26 {
        MipsFpr::fs3
    } else if n == 27 {
        MipsFpr::fs3f
    } else if n == 28 {
        MipsFpr::fs4
    } else if n == 29 {
        MipsFpr::fs4f
    } else if n == 30 {
        MipsFpr::fs5
    } else if n == 31 {
        MipsFpr::fs5f
    } else {
        MipsFpr::fs5f
    }
}

/// Converts a five-bit field to the general-purpose register it names.
pub fn gpr_from_u32(n: u32) -> (r: MipsGpr)
    requires
        n < 32,
    ensures
        r == spec_gpr_from(n),
{
    if n == 0 {
        MipsGpr::zero
    } else if n == 1 {
        MipsGpr::at
    } else if n == 2 {
        MipsGpr::v0
    } else if n == 3 {
        MipsGpr::v1
    } else if n == 4 {
        MipsGpr::a0
    } else if n == 5 {
        MipsGpr::a1
    } else if n == 6 {
        MipsGpr::a2
    } else if n == 7 {
        MipsGpr::a3
    } else if n == 8 {
        MipsGpr::t0
    } else if n == 9 {
        MipsGpr::t1
    } else if n == 10 {
        MipsGpr::t2
    } else if n == 11 {
        MipsGpr::t3
    } else if n == 12 {
        MipsGpr::t4
    } else if n == 13 {
        MipsGpr::t5
    } else if n == 14 {
        MipsGpr::t6
    } else if n == 15 {
        MipsGpr::t7
    } else if n == 16 {
        MipsGpr::s0
    } else if n == 17 {
        MipsGpr::s1
    } else if n == 18 {
        MipsGpr::s2
    } else if n == 19 {
        MipsGpr::s3
    } else if n == 20 {
        MipsGpr::s4
    } else if n == 21 {
        MipsGpr::s5
    } else if n == 22 {
        MipsGpr::s6
    } else if n == 23 {
        MipsGpr::s7
    } else if n == 24 {
        MipsGpr::t8
    } else if n == 25 {
        MipsGpr::t9
    } else if n == 26 {
        MipsGpr::k0
    } else if n == 27 {
        MipsGpr::k1
    } else if n == 28 {
        MipsGpr::gp
    } else if n == 29 {
        MipsGpr::sp
    } else if n == 30 {
        MipsGpr::fp
    } else if n == 31 {
        MipsGpr::ra
    } else {
        MipsGpr::ra
    }
}

/// Converts a five-bit field to the floating-point register it names.
pub fn fpr_from_u32(n: u32) -> (r: MipsFpr)
    requires
        n < 32,
    ensures
        r == spec_fpr_from(n),
{
    if n == 0 {
        MipsFpr::fv0
    } else if n == 1 {
        MipsFpr::fv0f
    } else if n == 2 {
        MipsFpr::fv1
    } else if n == 3 {
        MipsFpr::fv1f
    } else if n == 4 {
        MipsFpr::ft0
    } else if n == 5 {
        MipsFpr::ft0f
    } else if n == 6 {
        MipsFpr::ft1
    } else if n == 7 {
        MipsFpr::ft1f
    } else if n == 8 {
        MipsFpr::ft2
    } else if n == 9 {
        MipsFpr::ft2f
    } else if n == 10 {
        MipsFpr::ft3
    } else if n == 11 {
        MipsFpr::ft3f
    } else if n == 12 {
        MipsFpr::fa0
    } else if n == 13 {
        MipsFpr::fa0f
    } else if n == 14 {
        MipsFpr::fa1
    } else if n == 15 {
        MipsFpr::fa1f
    } else if n == 16 {
        MipsFpr::ft4
    } else if n == 17 {
        MipsFpr::ft4f
    } else if n == 18 {
        MipsFpr::ft5
    } else if n == 19 {
        MipsFpr::ft5f
    } else if n == 20 {
        MipsFpr::fs0
    } else if n == 21 {
        MipsFpr::fs0f
    } else if n == 22 {
        MipsFpr::fs1
    } else if n == 23 {
        MipsFpr::fs1f
    } else if n == 24 {
        MipsFpr::fs2
    } else if n == 25 {
        MipsFpr::fs2f
    } else if n == 26 {
        MipsFpr::fs3
    } else if n == 27 {
        MipsFpr::fs3f
    } else if n == 28 {
        MipsFpr::fs4
    } else if n == 29 {
        MipsFpr::fs4f
    } else if n == 30 {
        MipsFpr::fs5
    } else if n == 31 {
        MipsFpr::fs5f
    } else {
        MipsFpr::fs5f
    }
}

impl MyInstruction {
    /// The general-purpose register in the `rs` field.
    pub fn instr_get_rs(&self) -> (r: MipsGpr)
        ensures
            r == spec_gpr_from(rs_field(self.word)),
    {
        gpr_from_u32(self.rs_num())
    }

    /// The general-purpose register in the `rt` field.
    pub fn instr_get_rt(&self) -> (r: MipsGpr)
        ensures
            r == spec_gpr_from(rt_field(self.word)),
    {
        gpr_from_u32(self.rt_num())
    }

    /// The general-purpose register in the `rd` field.
    pub fn instr_get_rd(&self) -> (r: MipsGpr)
        ensures
            r == spec_gpr_from(rd_field(self.word)),
    {
        gpr_from_u32(self.rd_num())
    }

    /// The floating-point register in the `fs` field.
    pub fn instr_get_fs(&self) -> (r: MipsFpr)
        ensures
            r == spec_fpr_from(fs_field(self.word)),
    {
        fpr_from_u32(self.fs_num())
    }

    /// The floating-point register in the `ft` field.
    pub fn instr_get_ft(&self) -> (r: MipsFpr)
        ensures
            r == spec_fpr_from(ft_field(self.word)),
    {
        fpr_from_u32(self.ft_num())
    }

    /// The floating-point register in the `fd` field.
    pub fn instr_get_fd(&self) -> (r: MipsFpr)
        ensures
            r == spec_fpr_from(fd_field(self.word)),
    {
        fpr_from_u32(self.fd_num())
    }
}

} // verus!
