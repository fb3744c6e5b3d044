//! The CPU instruction-validity classifier and the code-region type.

use vstd::prelude::*;

verus! {

use crate::analysis::MyInstruction;
use crate::analysis::cop0_field;
use crate::analysis::cpu_cop0_defined;
use crate::analysis::invalid_start_count_from;
use crate::analysis::rd_field;
use crate::analysis::rs_field;
use crate::analysis::rt_field;
use crate::decode::cpu_dereferences;
use crate::decode::cpu_loads;
use crate::decode::cpu_modifies_rd;
use crate::decode::cpu_modifies_rt;
use crate::decode::cpu_op_cache;
use crate::decode::cpu_op_cop2_mem;
use crate::decode::cpu_op_ctc0_cfc0;
use crate::decode::cpu_op_mtc0_mfc0;
use crate::decode::cpu_op_pref;
use crate::decode::cpu_op_uncond_jump;
use crate::decode::cpu_op_unused_platform;
use crate::decode::cpu_recognized;
use crate::decode::cpu_stores;
use crate::decode::cpu_traps;
use crate::decode::cpu_valid_bits;
use crate::decode::query_cpu_dereferences;
use crate::decode::query_cpu_loads;
use crate::decode::query_cpu_modifies_rd;
use crate::decode::query_cpu_modifies_rt;
use crate::decode::query_cpu_op_cache;
use crate::decode::query_cpu_op_cop2_mem;
use crate::decode::query_cpu_op_ctc0_cfc0;
use crate::decode::query_cpu_op_mtc0_mfc0;
use crate::decode::query_cpu_op_pref;
use crate::decode::query_cpu_op_uncond_jump;
use crate::decode::query_cpu_op_unused_platform;
use crate::decode::query_cpu_recognized;
use crate::decode::query_cpu_stores;
use crate::decode::query_cpu_traps;
use crate::decode::query_cpu_valid_bits;
use crate::microcode::CHECK_THRESHHOLD;
use crate::utils::read_be_word;
use crate::utils::read_word_at;
use crate::utils::word_at;

/// A contiguous byte range of the ROM classified as code.
///
/// `rom_start`/`rom_end` are half-open byte offsets into the ROM buffer;
/// `has_rsp` records whether an embedded RSP microcode blob was detected in
/// or appended to the region.
#[derive(Debug, Clone, Copy, PartialEq, Eq, Structural)]
pub struct RomRegion {
    rom_start: usize,
    rom_end: usize,
    has_rsp: bool,
}

/// Mathematical image of a `RomRegion`: its two offsets and the RSP flag.
pub struct RegionView {
    /// Start offset, inclusive.
    pub start: int,
    /// End offset, exclusive.
    pub end: int,
    /// Whether the region carries RSP microcode.
    pub has_rsp: bool,
}

impl View for RomRegion {
    type V = RegionView;

    closed spec fn view(&self) -> RegionView {
        RegionView { start: self.rom_start as int, end: self.rom_end as int, has_rsp: self.has_rsp }
    }
}

impl RomRegion {
    /// Creates a region spanning `[rom_start, rom_end)` with no RSP blob.
    pub fn new(rom_start: usize, rom_end: usize) -> (r: Self)
        ensures
            r@.start == rom_start,
            r@.end == rom_end,
            !r@.has_rsp,
    {
        Self { rom_start, rom_end, has_rsp: false }
    }

    /// Start offset of the region, inclusive.
    pub fn rom_start(&self) -> (r: usize)
        ensures
            r == self@.start,
    {
        self.rom_start
    }

    /// End offset of the region, exclusive.
    pub fn rom_end(&self) -> (r: usize)
        ensures
            r == self@.end,
    {
        self.rom_end
    }

    /// Whether an RSP microcode blob was detected for this region.
    pub fn has_rsp(&self) -> (r: bool)
        ensures
            r == self@.has_rsp,
    {
        self.has_rsp
    }

    /// Moves the region's start.
    pub fn set_rom_start(&mut self, rom_start: usize)
        ensures
            final(self)@.start == rom_start,
            final(self)@.end == old(self)@.end,
            final(self)@.has_rsp == old(self)@.has_rsp,
    {
        self.rom_start = rom_start;
    }

    /// Moves the region's end.
    pub fn set_rom_end(&mut self, rom_end: usize)
        ensures
            final(self)@.end == rom_end,
            final(self)@.start == old(self)@.start,
            final(self)@.has_rsp == old(self)@.has_rsp,
    {
        self.rom_end = rom_end;
    }

    /// Sets the RSP flag.
    pub fn set_has_rsp(&mut self, has_rsp: bool)
        ensures
            final(self)@.has_rsp == has_rsp,
            final(self)@.start == old(self)@.start,
            final(self)@.end == old(self)@.end,
    {
        self.has_rsp = has_rsp;
    }
}

/// The CPU validity rule: all structural and platform checks a word must
/// pass to count as a plausible CPU instruction.
pub open spec fn spec_is_valid(w: u32) -> bool {
    &&& cpu_valid_bits(w)
    &&& cpu_recognized(w)
    &&& !(cpu_dereferences(w) && rs_field(w) == 0)
    &&& !(cpu_modifies_rd(w) && rd_field(w) == 0)
    &&& !(cpu_modifies_rt(w) && rt_field(w) == 0)
    &&& !(cpu_op_mtc0_mfc0(w) && !cpu_cop0_defined(cop0_field(w)))
    &&& !cpu_op_unused_platform(w)
    &&& !(cpu_op_cache(w) && !cache_params_ok(w))
    &&& !cpu_op_cop2_mem(w)
    &&& !cpu_traps(w)
    &&& !cpu_op_ctc0_cfc0(w)
    &&& !cpu_op_pref(w)
}

/// Whether a `cache` word carries a defined cache operation (3-bit field at
/// most 6) on a defined cache (2-bit field at most 1); both live in the
/// word's `rt` position.
pub open spec fn cache_params_ok(w: u32) -> bool {
    (rt_field(w) >> 2) <= 6 && (rt_field(w) & 0x3) <= 1
}

/// Checks whether an instruction word is a plausible CPU instruction.
///
/// All of the following must hold: the decoder recognises the word and finds
/// its bit pattern well formed; a load or store does not address relative to
/// `$zero`; arithmetic does not write `$zero`; `mtc0`/`mfc0` name a defined
/// coprocessor-0 register; the word is not one the platform's CPU never
/// executes (`ll`, `sc`, `lld`, `scd`, `syscall`, the COP2 loads/stores,
/// `ctc0`, `cfc0`, `pref`, traps); and a `cache` word carries defined
/// parameters.
pub fn is_valid(my_instruction: &MyInstruction) -> (r: bool)
    ensures
        r == spec_is_valid(my_instruction.word),
{
    let w = my_instruction.word;

    // Check for instructions with invalid bits or invalid opcodes
    if !query_cpu_valid_bits(w) || !query_cpu_recognized(w) {
        return false;
    }
    // Check for loads or stores with an offset from $zero
    if query_cpu_dereferences(w) && my_instruction.rs_num() == 0 {
        return false;
    }
    // Check for arithmetic that outputs to $zero
    if query_cpu_modifies_rd(w) && my_instruction.rd_num() == 0 {
        return false;
    }
    if query_cpu_modifies_rt(w) && my_instruction.rt_num() == 0 {
        return false;
    }
    // Check for mtc0 or mfc0 with reserved registers
    if query_cpu_op_mtc0_mfc0(w) && my_instruction.instr_get_cop0_rd().is_err() {
        return false;
    }
    // Check for instructions that this platform's CPU never executes,
    // despite being architecturally valid
    if query_cpu_op_unused_platform(w) {
        return false;
    }
    // Check for cache instructions with invalid parameters: only cache
    // operations 0-6 and cache types 0-1 are valid
    if query_cpu_op_cache(w) {
        let cache_param = my_instruction.instr_get_op();
        let cache_op = cache_param >> 2;
        let cache_type = cache_param & 0x3;
        if cache_op > 6 || cache_type > 1 {
            return false;
        }
    }
    // Check for cop2 instructions, which this CPU does not have
    if query_cpu_op_cop2_mem(w) {
        return false;
    }
    // Check for trap instructions
    if query_cpu_traps(w) {
        return false;
    }
    // Check for ctc0 and cfc0, which this CPU does not implement
    if query_cpu_op_ctc0_cfc0(w) {
        return false;
    }
    // Check for pref, which this CPU does not implement
    if query_cpu_op_pref(w) {
        return false;
    }
    true
}

/// Checks the word at the start of `bytes` with the CPU classifier.
pub fn is_valid_bytes(bytes: &[u8]) -> (r: bool)
    requires
        bytes@.len() >= 4,
    ensures
        r == spec_is_valid(word_at(bytes@, 0)),
{
    let my_instruction = MyInstruction::new(read_be_word(bytes));
    is_valid(&my_instruction)
}

/// The encoding of `jr $ra`, the return idiom that seeds region discovery.
pub const JR_RA: u32 = 0x03E00008;

/// The anti-repetition scan over `[i, end)` with the CPU rule: every word
/// must pass the CPU classifier, and no four identical load or store words
/// may stand in a row. `prev` and `ident` carry the previous word and the
/// current run length of identical words.
pub open spec fn cpu_range_ok_from(
    rom: Seq<u8>,
    i: int,
    end: int,
    prev: Option<u32>,
    ident: int,
) -> bool
    decreases end - i,
{
    if i + 4 > end {
        true
    } else {
        let w = word_at(rom, i);
        let ident2: int = if prev == Some(w) {
            ident + 1
        } else {
            0
        };
        if ident2 >= 3 && (cpu_loads(w) || cpu_stores(w)) {
            false
        } else if !spec_is_valid(w) {
            false
        } else {
            cpu_range_ok_from(rom, i + 4, end, Some(w), ident2)
        }
    }
}

/// Whether every word of `[start, end)` passes the CPU classifier under the
/// anti-repetition rule.
pub open spec fn spec_check_range(rom: Seq<u8>, start: int, end: int) -> bool {
    cpu_range_ok_from(rom, start, end, None::<u32>, 0)
}

/// Checks whether the given ROM range is plausible CPU code: every word must
/// be a valid CPU instruction, and a run of four identical loads or stores
/// rejects the range as a decoding artifact.
pub fn check_range(start: usize, end: usize, rom_bytes: &[u8]) -> (r: bool)
    requires
        start <= end <= rom_bytes@.len(),
    ensures
        r == spec_check_range(rom_bytes@, start as int, end as int),
{
    let mut i: usize = start;
    let mut prev: Option<u32> = None;
    let mut identical_count: usize = 0;
    loop
        invariant
            start <= i <= end <= rom_bytes@.len(),
            4 * identical_count <= i - start,
            spec_check_range(rom_bytes@, start as int, end as int) == cpu_range_ok_from(
                rom_bytes@,
                i as int,
                end as int,
                prev,
                identical_count as int,
            ),
        ensures
            i + 4 > end,
            spec_check_range(rom_bytes@, start as int, end as int),
        decreases end - i,
    {
        if end - i < 4 {
            break ;
        }
        let w = read_word_at(rom_bytes, i);
        // Track runs of identical instruction words
        let same = match prev {
            Some(p) => p == w,
            None => false,
        };
        let ident2: usize = if same {
            identical_count + 1
        } else {
            0
        };
        // Four identical loads or stores in a row are not likely to be real
        // code; duplicated arithmetic is plausible (x + x + x instead of
        // 3 * x), duplicated memory access is not.
        if ident2 >= 3 && (query_cpu_loads(w) || query_cpu_stores(w)) {
            return false;
        }
        let my_instruction = MyInstruction::new(w);
        if !is_valid(&my_instruction) {
            return false;
        }
        prev = Some(w);
        identical_count = ident2;
        i = i + 4;
    }
    true
}

/// The return markers found scanning forward from byte offset `i`: offsets
/// of `jr $ra` words whose following word (the branch delay slot) decodes as
/// valid under either classifier. After testing a `jr $ra` word the scan
/// resumes past its delay slot.
pub open spec fn return_locs_from(rom: Seq<u8>, i: int) -> Seq<int>
    decreases rom.len() - i,
{
    if i + 4 > rom.len() {
        Seq::empty()
    } else if word_at(rom, i) == JR_RA {
        if i + 8 > rom.len() {
            Seq::empty()
        } else if spec_is_valid(word_at(rom, i + 4)) || crate::microcode::spec_is_valid(
            word_at(rom, i + 4),
        ) {
            seq![i] + return_locs_from(rom, i + 8)
        } else {
            return_locs_from(rom, i + 8)
        }
    } else {
        return_locs_from(rom, i + 4)
    }
}

/// What the scan from `lo` promises of each marker it returns: it lies at or
/// after `lo`, is word-aligned with `lo`, leaves room for its delay slot,
/// holds the `jr $ra` word, and its delay slot decodes as valid under one of
/// the classifiers.
pub open spec fn marker_ok(rom: Seq<u8>, lo: int, loc: int) -> bool {
    &&& lo <= loc
    &&& loc + 8 <= rom.len()
    &&& loc % 4 == lo % 4
    &&& word_at(rom, loc) == JR_RA
    &&& (spec_is_valid(word_at(rom, loc + 4)) || crate::microcode::spec_is_valid(
        word_at(rom, loc + 4),
    ))
}

/// Every return marker satisfies `marker_ok`, and the marker list is
/// strictly increasing.
#[verifier::rlimit(100)]
pub proof fn lemma_return_locs_props(rom: Seq<u8>, i: int)
    requires
        0 <= i,
    ensures
        forall|k: int|
            0 <= k < return_locs_from(rom, i).len() ==> marker_ok(
                rom,
                i,
                #[trigger] return_locs_from(rom, i)[k],
            ),
        forall|k: int|
            0 <= k < return_locs_from(rom, i).len() - 1 ==> #[trigger] return_locs_from(rom, i)[k]
                < return_locs_from(rom, i)[k + 1],
    decreases rom.len() - i,
{
    let locs = return_locs_from(rom, i);
    if i + 4 > rom.len() {
    } else if word_at(rom, i) == JR_RA {
        if i + 8 > rom.len() {
        } else {
            lemma_return_locs_props(rom, i + 8);
            let rest = return_locs_from(rom, i + 8);
            if spec_is_valid(word_at(rom, i + 4)) || crate::microcode::spec_is_valid(
                word_at(rom, i + 4),
            ) {
                assert(locs == seq![i] + rest);
                assert forall|k: int| 0 <= k < locs.len() implies marker_ok(
                    rom,
                    i,
                    #[trigger] locs[k],
                ) by {
                    if k == 0 {
                        assert(locs[0] == i);
                    } else {
                        assert(locs[k] == rest[k - 1]);
                        assert(marker_ok(rom, i + 8, rest[k - 1]));
                    }
                }
                assert forall|k: int| 0 <= k < locs.len() - 1 implies #[trigger] locs[k] < locs[k
                    + 1] by {
                    if k == 0 {
                        assert(locs[1] == rest[0]);
                        assert(marker_ok(rom, i + 8, rest[0]));
                    } else {
                        assert(locs[k] == rest[k - 1] && locs[k + 1] == rest[k]);
                    }
                }
            } else {
                assert(locs == rest);
                assert forall|k: int| 0 <= k < locs.len() implies marker_ok(
                    rom,
                    i,
                    #[trigger] locs[k],
                ) by {
                    assert(marker_ok(rom, i + 8, rest[k]));
                }
            }
        }
    } else {
        lemma_return_locs_props(rom, i + 4);
        let rest = return_locs_from(rom, i + 4);
        assert(locs == rest);
        assert forall|k: int| 0 <= k < locs.len() implies marker_ok(rom, i, #[trigger] locs[k]) by {
            assert(marker_ok(rom, i + 4, rest[k]));
        }
    }
}

/// Searches the scan window for every instance of the instruction `jr $ra`
/// whose delay slot decodes as a valid CPU or RSP instruction.
pub fn find_return_locations(rom_bytes: &[u8]) -> (r: Vec<usize>)
    requires
        crate::IPL3_END <= rom_bytes@.len(),
    ensures
        r@.map_values(|x: usize| x as int) == return_locs_from(rom_bytes@, crate::IPL3_END as int),
{
    let mut filtered_locations: Vec<usize> = Vec::new();
    let mut i: usize = crate::IPL3_END;
    loop
        invariant
            crate::IPL3_END <= i <= rom_bytes@.len(),
            return_locs_from(rom_bytes@, crate::IPL3_END as int) == filtered_locations@.map_values(
                |x: usize| x as int,
            ) + return_locs_from(rom_bytes@, i as int),
        ensures
            return_locs_from(rom_bytes@, i as int) == Seq::<int>::empty(),
            return_locs_from(rom_bytes@, crate::IPL3_END as int) == filtered_locations@.map_values(
                |x: usize| x as int,
            ),
        decreases rom_bytes@.len() - i,
    {
        if rom_bytes.len() - i < 4 {
            break ;
        }
        let w = read_word_at(rom_bytes, i);
        if w == JR_RA {
            if rom_bytes.len() - i < 8 {
                break ;
            }
            let delay = read_word_at(rom_bytes, i + 4);
            let delay_instruction = MyInstruction::new(delay);
            if is_valid(&delay_instruction) || crate::microcode::is_valid(&delay_instruction) {
                let ghost prefix = filtered_locations@.map_values(|x: usize| x as int);
                filtered_locations.push(i);
                proof {
                    assert(filtered_locations@.map_values(|x: usize| x as int) =~= prefix.push(
                        i as int,
                    ));
                    assert(prefix + return_locs_from(rom_bytes@, i as int) =~= prefix.push(i as int)
                        + return_locs_from(rom_bytes@, i + 8));
                }
            }
            i = i + 8;
        } else {
            i = i + 4;
        }
    }
    filtered_locations
}

/// The region start reached by walking backward from `i` while each
/// preceding word passes the CPU classifier, bounded below by the end of the
/// IPL3 prefix.
pub open spec fn code_start_from(rom: Seq<u8>, i: int) -> int
    decreases i,
{
    if i <= crate::IPL3_END {
        i
    } else if !spec_is_valid(word_at(rom, i - 4)) {
        i
    } else {
        code_start_from(rom, i - 4)
    }
}

/// Bounds for the backward scan: it never leaves `[IPL3_END, i]` and keeps
/// word alignment with `i`.
pub proof fn lemma_code_start_bounds(rom: Seq<u8>, i: int)
    requires
        crate::IPL3_END <= i,
        i % 4 == 0,
    ensures
        crate::IPL3_END <= code_start_from(rom, i) <= i,
        code_start_from(rom, i) % 4 == 0,
    decreases i,
{
    if i <= crate::IPL3_END {
    } else if !spec_is_valid(word_at(rom, i - 4)) {
    } else {
        lemma_code_start_bounds(rom, i - 4);
    }
}

/// Searches backward from the given ROM offset until it hits an invalid
/// instruction, bounded by the end of the IPL3 prefix.
pub fn find_code_start(rom_bytes: &[u8], rom_addr: usize) -> (r: usize)
    requires
        crate::IPL3_END <= rom_addr <= rom_bytes@.len(),
        rom_addr % 4 == 0,
    ensures
        r == code_start_from(rom_bytes@, rom_addr as int),
{
    let mut r: usize = rom_addr;
    loop
        invariant
            crate::IPL3_END <= r <= rom_addr <= rom_bytes@.len(),
            r % 4 == 0,
            code_start_from(rom_bytes@, rom_addr as int) == code_start_from(rom_bytes@, r as int),
        ensures
            r == code_start_from(rom_bytes@, rom_addr as int),
        decreases r,
    {
        if r <= crate::IPL3_END {
            break ;
        }
        let cr = r - 4;
        let my_instruction = MyInstruction::new(read_word_at(rom_bytes, cr));
        if !is_valid(&my_instruction) {
            break ;
        }
        r = cr;
    }
    r
}

/// The region end reached by walking forward from `i` while each word passes
/// the CPU classifier, clamped at the last full word of the buffer.
pub open spec fn code_end_from(rom: Seq<u8>, i: int) -> int
    decreases rom.len() - i,
{
    if i + 4 > rom.len() {
        i
    } else if !spec_is_valid(word_at(rom, i)) {
        i
    } else {
        code_end_from(rom, i + 4)
    }
}

/// Bounds for the forward scan: it never moves backward, never passes the
/// buffer, and keeps word alignment with `i`.
pub proof fn lemma_code_end_bounds(rom: Seq<u8>, i: int)
    requires
        0 <= i <= rom.len(),
    ensures
        i <= code_end_from(rom, i) <= rom.len(),
        code_end_from(rom, i) % 4 == i % 4,
    decreases rom.len() - i,
{
    if i + 4 > rom.len() {
    } else if !spec_is_valid(word_at(rom, i)) {
    } else {
        lemma_code_end_bounds(rom, i + 4);
    }
}

/// Searches forward from the given ROM offset until it hits an invalid
/// instruction, clamped at the end of the buffer.
pub fn find_code_end(rom_bytes: &[u8], rom_addr: usize) -> (r: usize)
    requires
        rom_addr <= rom_bytes@.len(),
    ensures
        r == code_end_from(rom_bytes@, rom_addr as int),
{
    let mut r: usize = rom_addr;
    loop
        invariant
            rom_addr <= r <= rom_bytes@.len(),
            code_end_from(rom_bytes@, rom_addr as int) == code_end_from(rom_bytes@, r as int),
        ensures
            r == code_end_from(rom_bytes@, rom_addr as int),
        decreases rom_bytes@.len() - r,
    {
        if rom_bytes.len() - r < 4 {
            break ;
        }
        let my_instruction = MyInstruction::new(read_word_at(rom_bytes, r));
        if !is_valid(&my_instruction) {
            break ;
        }
        r = r + 4;
    }
    r
}

/// The first offset at or after `i` holding a nonzero word, if any full word
/// up to the end of the buffer holds one.
pub open spec fn first_nonzero_word(rom: Seq<u8>, i: int) -> Option<int>
    decreases rom.len() - i,
{
    if i + 4 > rom.len() {
        None
    } else if word_at(rom, i) != 0 {
        Some(i)
    } else {
        first_nonzero_word(rom, i + 4)
    }
}

proof fn lemma_first_nonzero_bounds(rom: Seq<u8>, i: int)
    requires
        0 <= i,
    ensures
        first_nonzero_word(rom, i) matches Some(p) ==> i <= p && p + 4 <= rom.len() && p % 4 == i
            % 4,
    decreases rom.len() - i,
{
    if i + 4 > rom.len() {
    } else if word_at(rom, i) != 0 {
    } else {
        lemma_first_nonzero_bounds(rom, i + 4);
    }
}

proof fn lemma_invalid_count_bounds(rom: Seq<u8>, i: int)
    requires
        0 <= i <= rom.len(),
    ensures
        0 <= invalid_start_count_from(rom, i),
        i + 4 * invalid_start_count_from(rom, i) <= rom.len(),
    decreases rom.len() - i,
{
    if i + 4 > rom.len() {
    } else if !crate::analysis::spec_is_invalid_start(word_at(rom, i)) {
    } else {
        lemma_invalid_count_bounds(rom, i + 4);
    }
}

/// Where the start of a region lands after trimming: first the leading run
/// of implausible start instructions is dropped, then any run of literal
/// zero words that follows — unless only zero words remain to the end of the
/// buffer, in which case the zero run is kept.
pub open spec fn trim_start_spec(rom: Seq<u8>, s: int) -> int {
    let s1 = s + 4 * invalid_start_count_from(rom, s);
    match first_nonzero_word(rom, s1) {
        Some(p) => p,
        None => s1,
    }
}

/// Bounds for start trimming: the start only moves forward, never past the
/// buffer, and keeps word alignment.
pub proof fn lemma_trim_start_bounds(rom: Seq<u8>, s: int)
    requires
        0 <= s <= rom.len(),
    ensures
        s <= trim_start_spec(rom, s) <= rom.len(),
        trim_start_spec(rom, s) % 4 == s % 4,
{
    lemma_invalid_count_bounds(rom, s);
    let s1 = s + 4 * invalid_start_count_from(rom, s);
    lemma_first_nonzero_bounds(rom, s1);
}

/// Where the end of a region lands after trimming: the end retracts one word
/// at a time, but not below `s`, until the two words ending at it close with
/// an unconditional non-linking branch (`b`, `j`, `jr`) followed by its
/// delay slot.
pub open spec fn trim_end_spec(rom: Seq<u8>, s: int, e: int) -> int
    decreases (if e - s >= 0 {
        e - s
    } else {
        0
    }),
{
    if e <= s {
        e
    } else if cpu_op_uncond_jump(word_at(rom, e - 8)) {
        e
    } else {
        trim_end_spec(rom, s, e - 4)
    }
}

/// Bounds for end trimming: when `s <= e` and they are word-aligned with
/// each other, the result stays in `[s, e]` and keeps that alignment.
pub proof fn lemma_trim_end_bounds(rom: Seq<u8>, s: int, e: int)
    requires
        s <= e,
        (e - s) % 4 == 0,
    ensures
        s <= trim_end_spec(rom, s, e) <= e,
        (trim_end_spec(rom, s, e) - s) % 4 == 0,
    decreases e - s,
{
    if e <= s {
    } else if cpu_op_uncond_jump(word_at(rom, e - 8)) {
    } else {
        lemma_trim_end_bounds(rom, s, e - 4);
    }
}

/// Trims a region: drops the leading run of implausible start instructions
/// and any zero-word padding after it, then retracts the end until the
/// region closes with an unconditional branch and its delay slot, or
/// collapses.
pub fn trim_region(codeseg: &mut RomRegion, rom_bytes: &[u8])
    requires
        crate::IPL3_END <= old(codeseg)@.start <= rom_bytes@.len(),
        old(codeseg)@.end <= rom_bytes@.len(),
    ensures
        final(codeseg)@.start == trim_start_spec(rom_bytes@, old(codeseg)@.start),
        final(codeseg)@.end == trim_end_spec(
            rom_bytes@,
            final(codeseg)@.start,
            old(codeseg)@.end,
        ),
        final(codeseg)@.has_rsp == old(codeseg)@.has_rsp,
{
    let mut start = codeseg.rom_start();
    let mut end = codeseg.rom_end();
    let invalid_start_count = crate::analysis::count_invalid_start_instructions(
        codeseg,
        rom_bytes,
    );
    let rom_len = rom_bytes.len();
    proof {
        lemma_invalid_count_bounds(rom_bytes@, start as int);
    }
    start = start + invalid_start_count * 4;

    // Remove leading zero-word padding, unless the rest of the buffer is all
    // zero words
    let ghost s1 = start as int;
    let mut probe = start;
    loop
        invariant
            s1 <= probe <= rom_bytes@.len(),
            first_nonzero_word(rom_bytes@, s1) == first_nonzero_word(rom_bytes@, probe as int),
        ensures
            first_nonzero_word(rom_bytes@, s1) matches Some(p) ==> p == probe,
            first_nonzero_word(rom_bytes@, s1) is None ==> probe + 4 > rom_bytes@.len(),
        decreases rom_bytes@.len() - probe,
    {
        if rom_bytes.len() - probe < 4 {
            break ;
        }
        if read_word_at(rom_bytes, probe) != 0 {
            break ;
        }
        probe = probe + 4;
    }
    if rom_len - probe >= 4 {
        start = probe;
    }

    // Any region of real code must end in an unconditional non-linking
    // branch (b, j, jr): anything after the last one would run into invalid
    // code, so retract the end, delay slot included, until one is found or
    // the region collapses.
    loop
        invariant
            end <= rom_bytes@.len(),
            end <= old(codeseg)@.end,
            crate::IPL3_END <= start,
            trim_end_spec(rom_bytes@, start as int, old(codeseg)@.end as int) == trim_end_spec(
                rom_bytes@,
                start as int,
                end as int,
            ),
        ensures
            end == trim_end_spec(rom_bytes@, start as int, old(codeseg)@.end as int),
        decreases end,
    {
        if end <= start {
            break ;
        }
        if query_cpu_op_uncond_jump(read_word_at(rom_bytes, end - 8)) {
            break ;
        }
        end = end - 4;
    }

    codeseg.set_rom_start(start);
    codeseg.set_rom_end(end);
}

/// End-trim law: in a region whose first word is a plausible, nonzero
/// function start, if the raw end lands one instruction past an
/// unconditional-branch/delay-slot pair at `p`, trimming leaves the start in
/// place and retracts the end to just after the pair — the branch and its
/// delay slot stay, nothing further does.
pub proof fn lemma_trim_to_return_pair(rom: Seq<u8>, s: int, p: int)
    requires
        0 <= s,
        s + 4 <= rom.len(),
        !crate::analysis::spec_is_invalid_start(word_at(rom, s)),
        word_at(rom, s) != 0,
        s <= p,
        cpu_op_uncond_jump(word_at(rom, p)),
        !cpu_op_uncond_jump(word_at(rom, p + 4)),
    ensures
        trim_start_spec(rom, s) == s,
        trim_end_spec(rom, s, p + 12) == p + 8,
{
    crate::analysis::lemma_plausible_start_is_kept(rom, s);
    assert(first_nonzero_word(rom, s) == Some(s));
    assert(trim_end_spec(rom, s, p + 12) == trim_end_spec(rom, s, p + 8));
}

/// The end reached by extending a region forward while each word passes the
/// RSP classifier, clamped at the last full word of the buffer.
pub open spec fn rsp_grow_from(rom: Seq<u8>, e: int) -> int
    decreases rom.len() - e,
{
    if e + 4 > rom.len() {
        e
    } else if !crate::microcode::spec_is_valid(word_at(rom, e)) {
        e
    } else {
        rsp_grow_from(rom, e + 4)
    }
}

/// Bounds for RSP tail growth: the end only moves forward, never past the
/// buffer, and keeps word alignment.
pub proof fn lemma_rsp_grow_bounds(rom: Seq<u8>, e: int)
    requires
        0 <= e <= rom.len(),
    ensures
        e <= rsp_grow_from(rom, e) <= rom.len(),
        rsp_grow_from(rom, e) % 4 == e % 4,
    decreases rom.len() - e,
{
    if e + 4 > rom.len() {
    } else if !crate::microcode::spec_is_valid(word_at(rom, e)) {
    } else {
        lemma_rsp_grow_bounds(rom, e + 4);
    }
}

/// The first marker index at or after `k` whose marker lies at or past
/// `end`, or the list length when none does.
pub open spec fn skip_covered(locs: Seq<int>, k: int, end: int) -> int
    decreases locs.len() - k,
{
    if !(0 <= k < locs.len()) {
        locs.len() as int
    } else if locs[k] < end {
        skip_covered(locs, k + 1, end)
    } else {
        k
    }
}

/// Bounds for marker skipping: the index only moves forward (from within the
/// list), never past the list, and stops on a marker at or past `end`.
pub proof fn lemma_skip_covered_bounds(locs: Seq<int>, k: int, end: int)
    requires
        0 <= k <= locs.len(),
    ensures
        k <= skip_covered(locs, k, end) <= locs.len(),
        skip_covered(locs, k, end) < locs.len() ==> locs[skip_covered(locs, k, end)] >= end,
    decreases locs.len() - k,
{
    if !(0 <= k < locs.len()) {
    } else if locs[k] < end {
        lemma_skip_covered_bounds(locs, k + 1, end);
    } else {
    }
}

/// One pass of the discovery loop, as a function of the ROM, the return
/// markers, the next marker index and the regions found so far; the result
/// is the new region list and the next marker index.
///
/// Each pass seeds a region from the next marker, expanding backward and
/// forward under the CPU rule — the backward scan is clamped at the previous
/// region's end so that regions never overlap — then skips the markers its
/// scan extent covered, trims it, folds it into its predecessor when the gap
/// between them is close and reads as CPU code or as RSP microcode (the
/// latter marking the merged region), and grows and re-trims a region marked
/// RSP along the microcode's tail.
#[verifier::opaque]
pub open spec fn discover_step(
    rom: Seq<u8>,
    locs: Seq<int>,
    k: int,
    regions: Seq<RegionView>,
) -> (Seq<RegionView>, int)
    recommends
        0 <= k < locs.len(),
{
    let cur = locs[k];
    let prev_end: int = if regions.len() > 0 {
        regions.last().end
    } else {
        crate::IPL3_END as int
    };
    let cs = code_start_from(rom, cur);
    let s0 = if cs < prev_end {
        prev_end
    } else {
        cs
    };
    let e0 = code_end_from(rom, cur);
    let k1 = skip_covered(locs, k + 1, e0);
    let s1 = trim_start_spec(rom, s0);
    let e1 = trim_end_spec(rom, s1, e0);
    let near = regions.len() > 0 && s1 - prev_end < CHECK_THRESHHOLD;
    let merged_cpu = near && spec_check_range(rom, prev_end, s1);
    let merged_rsp = near && !spec_check_range(rom, prev_end, s1)
        && crate::microcode::spec_check_range(rom, prev_end, s1);
    let seg = if merged_cpu {
        RegionView { start: regions.last().start, end: e1, has_rsp: regions.last().has_rsp }
    } else if merged_rsp {
        RegionView { start: regions.last().start, end: e1, has_rsp: true }
    } else {
        RegionView { start: s1, end: e1, has_rsp: false }
    };
    let base = if merged_cpu || merged_rsp {
        regions.drop_last()
    } else {
        regions
    };
    if seg.has_rsp {
        let g = rsp_grow_from(rom, seg.end);
        let s2 = trim_start_spec(rom, seg.start);
        let e2 = trim_end_spec(rom, s2, g);
        let k2 = skip_covered(locs, k1, e2);
        (base.push(RegionView { start: s2, end: e2, has_rsp: true }), k2)
    } else {
        (base.push(seg), k1)
    }
}

/// Gap-stitching law: when the newly seeded and trimmed region starts
/// within the check threshold of its predecessor's end, and the gap between
/// them fails the CPU scan but passes the RSP scan, the step folds the new
/// region into its predecessor: the earlier regions are untouched, the
/// region count is unchanged, and the merged region keeps the predecessor's
/// (re-trimmed) start and carries the RSP mark.
pub proof fn lemma_rsp_gap_merges(rom: Seq<u8>, locs: Seq<int>, k: int, regions: Seq<RegionView>)
    requires
        0 <= k < locs.len(),
        regions.len() > 0,
        ({
            let prev_end = regions.last().end;
            let cs = code_start_from(rom, locs[k]);
            let s0 = if cs < prev_end {
                prev_end
            } else {
                cs
            };
            let s1 = trim_start_spec(rom, s0);
            &&& s1 - prev_end < CHECK_THRESHHOLD
            &&& !spec_check_range(rom, prev_end, s1)
            &&& crate::microcode::spec_check_range(rom, prev_end, s1)
        }),
    ensures
        ({
            let step = discover_step(rom, locs, k, regions);
            &&& step.0.len() == regions.len()
            &&& step.0.drop_last() == regions.drop_last()
            &&& step.0.last().start == trim_start_spec(rom, regions.last().start)
            &&& step.0.last().has_rsp
        }),
{
    reveal(discover_step);
    let step = discover_step(rom, locs, k, regions);
    assert(step.0.drop_last() =~= regions.drop_last());
}

/// The discovery loop: one `discover_step` per remaining uncovered marker.
pub open spec fn discover_loop(
    rom: Seq<u8>,
    locs: Seq<int>,
    k: int,
    regions: Seq<RegionView>,
) -> Seq<RegionView>
    decreases locs.len() - k,
    via discover_loop_decreases
{
    if !(0 <= k < locs.len()) {
        regions
    } else {
        let step = discover_step(rom, locs, k, regions);
        discover_loop(rom, locs, step.1, step.0)
    }
}

/// The index a `discover_step` leaves behind always moves past the marker it
/// consumed and never past the marker list.
pub proof fn lemma_discover_step_k(rom: Seq<u8>, locs: Seq<int>, k: int, regions: Seq<RegionView>)
    requires
        0 <= k < locs.len(),
    ensures
        k < discover_step(rom, locs, k, regions).1 <= locs.len(),
{
    reveal(discover_step);
    let e0 = code_end_from(rom, locs[k]);
    lemma_skip_covered_lb(locs, k + 1);
    let k1 = skip_covered(locs, k + 1, e0);
    lemma_skip_covered_lb(locs, k1);
}

/// The mathematical image of a list of regions.
pub open spec fn regions_view(s: Seq<RomRegion>) -> Seq<RegionView> {
    s.map_values(|r: RomRegion| r@)
}

proof fn lemma_regions_view_push(s: Seq<RomRegion>, x: RomRegion)
    ensures
        regions_view(s.push(x)) == regions_view(s).push(x@),
{
    assert(regions_view(s.push(x)) =~= regions_view(s).push(x@));
}

proof fn lemma_regions_view_drop_last(s: Seq<RomRegion>)
    requires
        s.len() > 0,
    ensures
        regions_view(s.drop_last()) == regions_view(s).drop_last(),
{
    assert(regions_view(s.drop_last()) =~= regions_view(s).drop_last());
}

/// The regions of `rs` that are not empty, in order.
pub open spec fn nonempty_only(rs: Seq<RegionView>) -> Seq<RegionView>
    decreases rs.len(),
{
    if rs.len() == 0 {
        Seq::empty()
    } else {
        let rest = nonempty_only(rs.drop_last());
        if rs.last().start < rs.last().end {
            rest.push(rs.last())
        } else {
            rest
        }
    }
}

/// What region discovery returns on a ROM buffer: the discovery loop run
/// over all return markers, with empty regions left out.
pub open spec fn spec_find_code_regions(rom: Seq<u8>) -> Seq<RegionView> {
    nonempty_only(
        discover_loop(rom, return_locs_from(rom, crate::IPL3_END as int), 0, Seq::empty()),
    )
}

proof fn lemma_skip_covered_lb(locs: Seq<int>, k: int)
    requires
        0 <= k <= locs.len(),
    ensures
        forall|end: int| k <= #[trigger] skip_covered(locs, k, end) <= locs.len(),
{
    assert forall|end: int| k <= #[trigger] skip_covered(locs, k, end) <= locs.len() by {
        lemma_skip_covered_bounds(locs, k, end);
    }
}

#[via_fn]
proof fn discover_loop_decreases(rom: Seq<u8>, locs: Seq<int>, k: int, regions: Seq<RegionView>) {
    if 0 <= k < locs.len() {
        lemma_discover_step_k(rom, locs, k, regions);
    }
}

/// Extends an RSP region's end while each next word passes the RSP
/// classifier, clamped at the last full word of the buffer.
fn grow_rsp_end(rom_bytes: &[u8], end: usize) -> (r: usize)
    requires
        end <= rom_bytes@.len(),
    ensures
        r == rsp_grow_from(rom_bytes@, end as int),
{
    let n = rom_bytes.len();
    let mut cur_end = end;
    loop
        invariant
            end <= cur_end <= n,
            n == rom_bytes@.len(),
            rsp_grow_from(rom_bytes@, end as int) == rsp_grow_from(rom_bytes@, cur_end as int),
        ensures
            cur_end as int == rsp_grow_from(rom_bytes@, end as int),
        decreases n - cur_end,
    {
        if n - cur_end < 4 {
            break ;
        }
        let word_instruction = MyInstruction::new(read_word_at(rom_bytes, cur_end));
        if !crate::microcode::is_valid(&word_instruction) {
            break ;
        }
        cur_end = cur_end + 4;
    }
    cur_end
}

/// Region discovery is deterministic: it depends on nothing but the bytes of
/// the buffer, so re-running it on the same buffer yields an identical
/// region list.
pub proof fn lemma_discovery_idempotent(rom: Seq<u8>, r1: Seq<RegionView>, r2: Seq<RegionView>)
    requires
        r1 == spec_find_code_regions(rom),
        r2 == spec_find_code_regions(rom),
    ensures
        r1 == r2,
{
}

/// Well-formedness of a region list as the discovery loop maintains it:
/// every offset lies in the scan window and is word-aligned, each region
/// starts at or after its predecessor's end, and region ends never decrease
/// along the list. (A region may be transiently empty or inverted; empty
/// regions are dropped before the list is returned.)
#[verifier::opaque]
pub open spec fn regions_wf(rv: Seq<RegionView>, n: int) -> bool {
    &&& forall|m: int|
        0 <= m < rv.len() ==> {
            let v = #[trigger] rv[m];
            &&& crate::IPL3_END <= v.start <= n
            &&& crate::IPL3_END <= v.end <= n
            &&& v.start % 4 == 0
            &&& v.end % 4 == 0
        }
    &&& forall|m: int| 0 <= m < rv.len() - 1 ==> (#[trigger] rv[m]).end <= rv[m + 1].start
    &&& forall|m1: int, m2: int|
        0 <= m1 <= m2 < rv.len() ==> (#[trigger] rv[m1]).end <= (#[trigger] rv[m2]).end
}

/// Advances the marker index past every marker that lies before `end`.
#[verifier::loop_isolation(false)]
fn skip_markers(rom_bytes: &[u8], return_addrs: &Vec<usize>, i: &mut usize, end: usize)
    requires
        return_addrs@.map_values(|x: usize| x as int) == return_locs_from(
            rom_bytes@,
            crate::IPL3_END as int,
        ),
        *old(i) <= return_addrs@.len(),
    ensures
        *final(i) as int == skip_covered(
            return_locs_from(rom_bytes@, crate::IPL3_END as int),
            *old(i) as int,
            end as int,
        ),
        *old(i) <= *final(i) <= return_addrs@.len(),
        *final(i) < return_addrs@.len() ==> return_locs_from(
            rom_bytes@,
            crate::IPL3_END as int,
        )[*final(i) as int] >= end,
{
    let marker_count = return_addrs.len();
    let ghost locs = return_locs_from(rom_bytes@, crate::IPL3_END as int);
    let ghost ib = *i as int;
    while *i < marker_count && return_addrs[*i] < end
        invariant
            ib <= *i as int <= locs.len(),
            skip_covered(locs, ib, end as int) == skip_covered(locs, *i as int, end as int),
        decreases locs.len() - *i,
    {
        proof {
            assert(locs[*i as int] == return_addrs@[*i as int] as int);
        }
        *i = *i + 1;
    }
    proof {
        if (*i as int) < locs.len() {
            assert(locs[*i as int] == return_addrs@[*i as int] as int);
        }
        assert(skip_covered(locs, *i as int, end as int) == *i as int);
    }
}

/// Seeds a candidate region from the marker at `*i`: expands backward under
/// the CPU rule (clamped at `prev_end`) and forward, advances `*i` past the
/// markers the scan extent covers, and trims the region.
#[verifier::rlimit(100)]
#[verifier::loop_isolation(false)]
fn seed_region(
    rom_bytes: &[u8],
    return_addrs: &Vec<usize>,
    i: &mut usize,
    prev_end: usize,
) -> (seg: RomRegion)
    requires
        crate::IPL3_END <= rom_bytes@.len(),
        return_addrs@.map_values(|x: usize| x as int) == return_locs_from(
            rom_bytes@,
            crate::IPL3_END as int,
        ),
        *old(i) < return_addrs@.len(),
        crate::IPL3_END <= prev_end <= rom_bytes@.len(),
        prev_end % 4 == 0,
        return_locs_from(rom_bytes@, crate::IPL3_END as int)[*old(i) as int] >= prev_end,
    ensures
        ({
            let locs = return_locs_from(rom_bytes@, crate::IPL3_END as int);
            let cur = locs[*old(i) as int];
            let cs = code_start_from(rom_bytes@, cur);
            let s0 = if cs < prev_end {
                prev_end as int
            } else {
                cs
            };
            let e0 = code_end_from(rom_bytes@, cur);
            &&& seg@.start == trim_start_spec(rom_bytes@, s0)
            &&& seg@.end == trim_end_spec(rom_bytes@, seg@.start, e0)
            &&& !seg@.has_rsp
            &&& *final(i) as int == skip_covered(locs, *old(i) + 1, e0)
            &&& *old(i) < *final(i) <= return_addrs@.len()
            &&& prev_end <= seg@.start <= rom_bytes@.len()
            &&& seg@.start % 4 == 0
            &&& prev_end <= seg@.end <= rom_bytes@.len()
            &&& crate::IPL3_END <= seg@.end
            &&& seg@.end % 4 == 0
            &&& seg@.end <= e0
            &&& (*final(i) < return_addrs@.len() ==> locs[*final(i) as int] >= e0)
        }),
{
    let marker_count = return_addrs.len();
    let ghost locs = return_locs_from(rom_bytes@, crate::IPL3_END as int);
    let ghost i0 = *i as int;
    proof {
        lemma_return_locs_props(rom_bytes@, crate::IPL3_END as int);
        assert(*i < marker_count);
    }
    let cur = return_addrs[*i];
    proof {
        assert(locs[i0] == cur as int);
        assert(marker_ok(rom_bytes@, crate::IPL3_END as int, cur as int));
        lemma_code_start_bounds(rom_bytes@, cur as int);
        lemma_code_end_bounds(rom_bytes@, cur as int);
    }
    let mut region_start = find_code_start(rom_bytes, cur);
    // Keep regions disjoint: the backward scan never crosses into the
    // previous region
    if region_start < prev_end {
        region_start = prev_end;
    }
    let region_end = find_code_end(rom_bytes, cur);
    let ghost s0 = region_start as int;
    let ghost e0 = region_end as int;
    *i = *i + 1;

    // Skip any return markers that the scan extent covers
    skip_markers(rom_bytes, return_addrs, i, region_end);

    let mut seg = RomRegion::new(region_start, region_end);
    proof {
        lemma_trim_start_bounds(rom_bytes@, s0);
    }
    trim_region(&mut seg, rom_bytes);
    proof {
        if seg@.start <= e0 {
            lemma_trim_end_bounds(rom_bytes@, seg@.start, e0);
        }
    }
    seg
}

/// Extends an RSP-marked region along the microcode tail, trims it again,
/// and advances `*i` past the markers now inside the region.
#[verifier::rlimit(100)]
#[verifier::loop_isolation(false)]
fn rsp_extend(rom_bytes: &[u8], return_addrs: &Vec<usize>, i: &mut usize, seg: &mut RomRegion)
    requires
        crate::IPL3_END <= rom_bytes@.len(),
        return_addrs@.map_values(|x: usize| x as int) == return_locs_from(
            rom_bytes@,
            crate::IPL3_END as int,
        ),
        *old(i) <= return_addrs@.len(),
        crate::IPL3_END <= old(seg)@.start <= rom_bytes@.len(),
        old(seg)@.start % 4 == 0,
        crate::IPL3_END <= old(seg)@.end <= rom_bytes@.len(),
        old(seg)@.end % 4 == 0,
        old(seg)@.has_rsp,
    ensures
        ({
            let locs = return_locs_from(rom_bytes@, crate::IPL3_END as int);
            let g = rsp_grow_from(rom_bytes@, old(seg)@.end);
            &&& final(seg)@.start == trim_start_spec(rom_bytes@, old(seg)@.start)
            &&& final(seg)@.end == trim_end_spec(rom_bytes@, final(seg)@.start, g)
            &&& final(seg)@.has_rsp
            &&& *final(i) as int == skip_covered(locs, *old(i) as int, final(seg)@.end)
            &&& *old(i) <= *final(i) <= return_addrs@.len()
            &&& old(seg)@.start <= final(seg)@.start <= rom_bytes@.len()
            &&& final(seg)@.start % 4 == 0
            &&& crate::IPL3_END <= final(seg)@.end <= rom_bytes@.len()
            &&& final(seg)@.end % 4 == 0
            &&& rsp_grow_from(rom_bytes@, old(seg)@.end) >= old(seg)@.end
            &&& (final(seg)@.start <= final(seg)@.end || final(seg)@.end == rsp_grow_from(
                rom_bytes@,
                old(seg)@.end,
            ))
            &&& (*final(i) < return_addrs@.len() ==> locs[*final(i) as int] >= final(seg)@.end)
        }),
{
    proof {
        lemma_rsp_grow_bounds(rom_bytes@, seg@.end);
    }
    let cur_end = grow_rsp_end(rom_bytes, seg.rom_end());
    seg.set_rom_end(cur_end);
    proof {
        lemma_trim_start_bounds(rom_bytes@, seg@.start);
    }
    trim_region(seg, rom_bytes);
    proof {
        if seg@.start <= cur_end as int {
            lemma_trim_end_bounds(rom_bytes@, seg@.start, cur_end as int);
        }
    }

    // Skip any return markers now inside the grown region
    let seg_end = seg.rom_end();
    skip_markers(rom_bytes, return_addrs, i, seg_end);
}

proof fn lemma_regions_wf_empty(n: int)
    ensures
        regions_wf(Seq::<RegionView>::empty(), n),
{
    reveal(regions_wf);
}

proof fn lemma_regions_wf_last(rv: Seq<RegionView>, n: int)
    requires
        regions_wf(rv, n),
        rv.len() > 0,
    ensures
        crate::IPL3_END <= rv.last().start <= n,
        crate::IPL3_END <= rv.last().end <= n,
        rv.last().start % 4 == 0,
        rv.last().end % 4 == 0,
{
    reveal(regions_wf);
}

proof fn lemma_regions_wf_penult(rv: Seq<RegionView>, n: int)
    requires
        regions_wf(rv, n),
        rv.len() > 1,
    ensures
        rv[rv.len() - 2].end <= rv.last().start,
        rv[rv.len() - 2].end <= rv.last().end,
{
    reveal(regions_wf);
    assert(rv[rv.len() - 2].end <= rv[rv.len() - 1].start);
    assert(rv[rv.len() - 2].end <= rv[rv.len() - 1].end);
}

proof fn lemma_regions_wf_drop_last(rv: Seq<RegionView>, n: int)
    requires
        regions_wf(rv, n),
        rv.len() > 0,
    ensures
        regions_wf(rv.drop_last(), n),
{
    reveal(regions_wf);
    assert forall|m: int| 0 <= m < rv.drop_last().len() implies {
        let v = #[trigger] rv.drop_last()[m];
        &&& crate::IPL3_END <= v.start <= n
        &&& crate::IPL3_END <= v.end <= n
        &&& v.start % 4 == 0
        &&& v.end % 4 == 0
    } by {
        assert(rv.drop_last()[m] == rv[m]);
    }
    assert forall|m: int| 0 <= m < rv.drop_last().len() - 1 implies (
    #[trigger] rv.drop_last()[m]).end <= rv.drop_last()[m + 1].start by {
        assert(rv.drop_last()[m] == rv[m] && rv.drop_last()[m + 1] == rv[m + 1]);
    }
    assert forall|m1: int, m2: int| 0 <= m1 <= m2 < rv.drop_last().len() implies (
    #[trigger] rv.drop_last()[m1]).end <= (#[trigger] rv.drop_last()[m2]).end by {
        assert(rv.drop_last()[m1] == rv[m1] && rv.drop_last()[m2] == rv[m2]);
    }
}

proof fn lemma_regions_wf_push(rv: Seq<RegionView>, x: RegionView, n: int)
    requires
        regions_wf(rv, n),
        crate::IPL3_END <= x.start <= n,
        crate::IPL3_END <= x.end <= n,
        x.start % 4 == 0,
        x.end % 4 == 0,
        rv.len() > 0 ==> rv.last().end <= x.start,
        rv.len() > 0 ==> rv.last().end <= x.end,
    ensures
        regions_wf(rv.push(x), n),
{
    reveal(regions_wf);
    let rvp = rv.push(x);
    assert forall|m: int| 0 <= m < rvp.len() implies {
        let v = #[trigger] rvp[m];
        &&& crate::IPL3_END <= v.start <= n
        &&& crate::IPL3_END <= v.end <= n
        &&& v.start % 4 == 0
        &&& v.end % 4 == 0
    } by {
        if m < rv.len() {
            assert(rvp[m] == rv[m]);
        } else {
            assert(rvp[m] == x);
        }
    }
    assert forall|m: int| 0 <= m < rvp.len() - 1 implies (#[trigger] rvp[m]).end <= rvp[m
        + 1].start by {
        assert(rvp[m] == rv[m]);
        if m + 1 < rv.len() {
            assert(rvp[m + 1] == rv[m + 1]);
        } else {
            assert(rvp[m + 1] == x);
            assert(rv[m].end <= rv.last().end);
        }
    }
    assert forall|m1: int, m2: int| 0 <= m1 <= m2 < rvp.len() implies (#[trigger] rvp[m1]).end <= (
    #[trigger] rvp[m2]).end by {
        if m2 < rv.len() {
            assert(rvp[m1] == rv[m1] && rvp[m2] == rv[m2]);
        } else if m1 < rv.len() {
            assert(rvp[m1] == rv[m1] && rvp[m2] == x);
            assert(rv[m1].end <= rv.last().end);
        }
    }
}

/// One iteration of the discovery loop over the marker list: seeds, skips,
/// trims, merges and grows exactly as `discover_step` describes, advancing
/// the marker index and updating the region list in place.
#[verifier::rlimit(100)]
#[verifier::loop_isolation(false)]
fn discover_iteration(
    rom_bytes: &[u8],
    return_addrs: &Vec<usize>,
    i: &mut usize,
    regions: &mut Vec<RomRegion>,
)
    requires
        crate::IPL3_END <= rom_bytes@.len(),
        return_addrs@.map_values(|x: usize| x as int) == return_locs_from(
            rom_bytes@,
            crate::IPL3_END as int,
        ),
        *old(i) < return_addrs@.len(),
        regions_wf(regions_view(old(regions)@), rom_bytes@.len() as int),
        old(regions)@.len() > 0 ==> return_locs_from(rom_bytes@, crate::IPL3_END as int)[*old(i) as int]
            >= old(regions)@.last()@.end,
    ensures
        *old(i) < *final(i) <= return_addrs@.len(),
        regions_wf(regions_view(final(regions)@), rom_bytes@.len() as int),
        (regions_view(final(regions)@), *final(i) as int) == discover_step(
            rom_bytes@,
            return_locs_from(rom_bytes@, crate::IPL3_END as int),
            *old(i) as int,
            regions_view(old(regions)@),
        ),
        final(regions)@.len() > 0,
        *final(i) < return_addrs@.len() ==> return_locs_from(rom_bytes@, crate::IPL3_END as int)[*final(i) as int]
            >= final(regions)@.last()@.end,
{
    let n = rom_bytes.len();
    let ghost locs = return_locs_from(rom_bytes@, crate::IPL3_END as int);
    let ghost i0 = *i as int;
    let ghost rv0 = regions_view(regions@);
    proof {
        lemma_return_locs_props(rom_bytes@, crate::IPL3_END as int);
        assert(marker_ok(rom_bytes@, crate::IPL3_END as int, locs[i0]));
    }
    let prev_end: usize = if regions.len() > 0 {
        regions[regions.len() - 1].rom_end()
    } else {
        crate::IPL3_END
    };
    proof {
        assert(regions@.len() > 0 ==> prev_end as int == rv0.last().end);
        if regions@.len() > 0 {
            lemma_regions_wf_last(rv0, n as int);
        }
    }
    let mut seg = seed_region(rom_bytes, return_addrs, i, prev_end);

    // If the region starts close enough to the previous region's end,
    // inspect the gap between them: a gap of valid CPU code merges the two
    // regions; otherwise a gap of valid RSP microcode merges them and marks
    // the result as carrying microcode.
    let mut valid_range = false;
    let mut found_rsp = false;
    if regions.len() > 0 {
        let last_start = seg.rom_start();
        if last_start - prev_end < CHECK_THRESHHOLD {
            valid_range = check_range(prev_end, last_start, rom_bytes);
            if !valid_range {
                valid_range = crate::microcode::check_range(prev_end, last_start, rom_bytes);
                if valid_range {
                    found_rsp = true;
                }
            }
            if valid_range {
                let new_end = seg.rom_end();
                let ghost pre = regions@;
                let mut merged = regions.pop().unwrap();
                proof {
                    lemma_regions_view_drop_last(pre);
                    assert(merged@ == rv0.last());
                }
                merged.set_rom_end(new_end);
                if found_rsp {
                    merged.set_has_rsp(true);
                }
                seg = merged;
            }
        }
    }

    let ghost merged = valid_range;
    let ghost pre_rsp = seg@;
    proof {
        if merged {
            lemma_regions_wf_drop_last(rv0, n as int);
        }
        assert(regions_view(regions@) == if merged {
            rv0.drop_last()
        } else {
            rv0
        });
    }

    // If the region carries microcode, extend it along the RSP tail
    if seg.has_rsp() {
        rsp_extend(rom_bytes, return_addrs, i, &mut seg);
    }
    let ghost base_v = regions_view(regions@);
    proof {
        if base_v.len() > 0 {
            assert(base_v.last().end <= seg@.start && base_v.last().end <= seg@.end) by {
                if merged {
                    lemma_regions_wf_penult(rv0, n as int);
                    assert(base_v.last() == rv0[rv0.len() - 2]);
                    assert(pre_rsp.start == rv0.last().start);
                    assert(pre_rsp.end >= prev_end as int);
                } else {
                    assert(base_v.last().end == prev_end as int);
                }
            }
        }
        lemma_regions_wf_push(base_v, seg@, n as int);
    }
    let ghost pre_push = regions@;
    regions.push(seg);
    proof {
        lemma_regions_view_push(pre_push, seg);
        assert(regions_view(regions@) == base_v.push(seg@));
        assert((regions_view(regions@), *i as int) == discover_step(rom_bytes@, locs, i0, rv0))
            by {
            reveal(discover_step);
        }
    }
}

/// Drops the empty regions from a discovered list, keeping order.
#[verifier::rlimit(100)]
#[verifier::loop_isolation(false)]
fn keep_nonempty(regions: &Vec<RomRegion>, rom_len: usize) -> (r: Vec<RomRegion>)
    requires
        regions_wf(regions_view(regions@), rom_len as int),
    ensures
        regions_view(r@) == nonempty_only(regions_view(regions@)),
        forall|m: int|
            0 <= m < r@.len() ==> crate::IPL3_END <= (#[trigger] r@[m])@.start < r@[m]@.end
                <= rom_len && r@[m]@.start % 4 == 0 && r@[m]@.end % 4 == 0,
        forall|m: int| 0 <= m < r@.len() - 1 ==> (#[trigger] r@[m])@.end <= r@[m + 1]@.start,
{
    proof {
        reveal(regions_wf);
    }
    let mut result: Vec<RomRegion> = Vec::new();
    let mut j: usize = 0;
    proof {
        assert(regions_view(regions@).take(0) =~= Seq::<RegionView>::empty());
        assert(regions_view(result@) =~= Seq::<RegionView>::empty());
    }
    while j < regions.len()
        invariant
            j <= regions@.len(),
            regions_view(result@) == nonempty_only(regions_view(regions@).take(j as int)),
            forall|m: int|
                0 <= m < result@.len() ==> crate::IPL3_END <= (#[trigger] result@[m])@.start
                    < result@[m]@.end <= rom_len && result@[m]@.start % 4 == 0 && result@[m]@.end
                    % 4 == 0,
            forall|m: int|
                0 <= m < result@.len() - 1 ==> (#[trigger] result@[m])@.end <= result@[m
                    + 1]@.start,
            result@.len() > 0 ==> j > 0 && result@.last()@.end <= regions@[j - 1]@.end,
        decreases regions@.len() - j,
    {
        let region = regions[j];
        if region.rom_start() < region.rom_end() {
            result.push(region);
        }
        j = j + 1;
        proof {
            assert(regions_view(regions@).take(j as int).drop_last() =~= regions_view(
                regions@,
            ).take(j - 1));
            assert(regions_view(regions@).take(j as int).last() == regions@[j - 1]@);
            if region@.start < region@.end {
                lemma_regions_view_push(result@.drop_last(), region);
                assert(result@.drop_last().push(region) =~= result@);
            }
        }
    }
    proof {
        assert(regions_view(regions@).take(regions@.len() as int) =~= regions_view(regions@));
    }
    result
}

/// Discovers the code regions of a ROM buffer.
///
/// Scans the window past the IPL3 prefix for `jr $ra` return markers, seeds
/// a region from each uncovered marker by expanding backward and forward
/// under the CPU validity rule, trims implausible starts and unterminated
/// tails, merges regions whose narrow gap reads as CPU code or as RSP
/// microcode, and extends RSP-marked regions along the microcode tail.
///
/// The returned regions are exactly `spec_find_code_regions` of the buffer;
/// they are nonempty, word-aligned, contained in the scan window, and listed
/// in ascending order without overlap.
#[verifier::rlimit(100)]
#[verifier::loop_isolation(false)]
pub fn find_code_regions(rom_bytes: &[u8]) -> (r: Vec<RomRegion>)
    ensures
        regions_view(r@) == spec_find_code_regions(rom_bytes@),
        forall|m: int|
            0 <= m < r@.len() ==> crate::IPL3_END <= (#[trigger] r@[m])@.start < r@[m]@.end
                <= rom_bytes@.len() && r@[m]@.start % 4 == 0 && r@[m]@.end % 4 == 0,
        forall|m: int| 0 <= m < r@.len() - 1 ==> (#[trigger] r@[m])@.end <= r@[m + 1]@.start,
{
    let n = rom_bytes.len();
    let mut regions: Vec<RomRegion> = Vec::new();
    if n < crate::IPL3_END {
        proof {
            assert(return_locs_from(rom_bytes@, crate::IPL3_END as int) =~= Seq::<int>::empty());
            assert(regions_view(regions@) =~= Seq::<RegionView>::empty());
        }
        return regions;
    }
    let return_addrs = find_return_locations(rom_bytes);
    let ghost locs = return_locs_from(rom_bytes@, crate::IPL3_END as int);
    proof {
        assert(return_addrs@.map_values(|x: usize| x as int) == locs);
        assert(regions_view(regions@) =~= Seq::<RegionView>::empty());
        lemma_regions_wf_empty(n as int);
    }
    let mut i: usize = 0;
    while i < return_addrs.len()
        invariant
            i <= locs.len(),
            discover_loop(rom_bytes@, locs, i as int, regions_view(regions@)) == discover_loop(
                rom_bytes@,
                locs,
                0,
                Seq::<RegionView>::empty(),
            ),
            regions_wf(regions_view(regions@), n as int),
            i < locs.len() && regions@.len() > 0 ==> locs[i as int] >= regions@.last()@.end,
        decreases locs.len() - i,
    {
        let ghost i0 = i as int;
        let ghost rv0 = regions_view(regions@);
        discover_iteration(rom_bytes, &return_addrs, &mut i, &mut regions);
        proof {
            assert(discover_loop(rom_bytes@, locs, i0, rv0) == discover_loop(
                rom_bytes@,
                locs,
                i as int,
                regions_view(regions@),
            ));
        }
    }
    proof {
        assert(discover_loop(rom_bytes@, locs, locs.len() as int, regions_view(regions@))
            == regions_view(regions@));
    }
    keep_nonempty(&regions, n)
}

} // verus!
