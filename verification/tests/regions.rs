use findcode::IPL3_END;
use findcode::analysis::MyInstruction;
use findcode::analysis::count_invalid_start_instructions;
use findcode::analysis::is_invalid_start_instruction;
use findcode::findcode::RomRegion;
use findcode::findcode::check_range;
use findcode::findcode::is_valid as cpu_is_valid;
use findcode::findcode::find_code_regions;
use findcode::findcode::find_return_locations;
use findcode::findcode::trim_region;

const ADDU_V0_A0: u32 = 0x00801021; // addu $v0, $a0, $zero ("move $v0, $a0")
const OR_V0_T0: u32 = 0x01001025; // or $v0, $t0, $zero (reads $t0)
const JR_RA: u32 = 0x03E00008;
const NOP: u32 = 0;
const JAL: u32 = 0x0C000040; // jal
const B_SELF: u32 = 0x10000001; // b +1
const JR_ZERO: u32 = 0x00000008; // jr $zero
const SLL_FROM_ZERO: u32 = 0x00001100; // sll $v0, $zero, 4
const MTHI_T0: u32 = 0x01000011; // mthi $t0
const BC1T: u32 = 0x45010002; // bc1t +2
const ADD_TRAPPING: u32 = 0x00851020; // add $v0, $a0, $a1
const SW_VIA_RA: u32 = 0xAFE80000; // sw $t0, 0($ra)
const LW_V0_A0: u32 = 0x8C820000; // lw $v0, 0($a0)
const ADDU_V0_RA_A0: u32 = 0x03E41021; // addu $v0, $ra, $a0
const LW_VIA_RA: u32 = 0x8FE80000; // lw $t0, 0($ra)
const VADD: u32 = 0x4A000010; // RSP vadd
const RSP_MTC0_STATUS: u32 = 0x40882000; // RSP mtc0 $t0, SP_STATUS
const GARBAGE: u32 = 0xC0820000; // ll: rejected by both classifiers

/// A ROM buffer: the 4 KiB IPL3 prefix of zero bytes, then the given words.
fn build_rom(words: &[u32]) -> Vec<u8> {
    let mut rom = vec![0u8; IPL3_END];
    for w in words {
        rom.extend_from_slice(&w.to_be_bytes());
    }
    rom
}

fn region_tuples(rom: &[u8]) -> Vec<(usize, usize, bool)> {
    find_code_regions(rom)
        .iter()
        .map(|r| (r.rom_start(), r.rom_end(), r.has_rsp()))
        .collect()
}

#[test]
fn start_accepts_argument_move() {
    // a function may open by reading an argument register
    let rom = build_rom(&[ADDU_V0_A0, JR_RA, NOP]);
    let region = RomRegion::new(IPL3_END, rom.len());
    assert_eq!(count_invalid_start_instructions(&region, &rom), 0);
}

#[test]
fn start_rejects_uninitialized_temporary() {
    // a read of $t0, never pre-initialized, is trimmed past
    let rom = build_rom(&[OR_V0_T0, ADDU_V0_A0, JR_RA, NOP]);
    let region = RomRegion::new(IPL3_END, rom.len());
    assert_eq!(count_invalid_start_instructions(&region, &rom), 1);
}

#[test]
fn implausible_function_openings() {
    for w in [
        NOP,
        JAL,
        B_SELF,
        JR_ZERO,
        SLL_FROM_ZERO,
        MTHI_T0,
        BC1T,
        ADD_TRAPPING,
        SW_VIA_RA,
        OR_V0_T0,
        GARBAGE,
    ] {
        assert!(is_invalid_start_instruction(&MyInstruction::new(w)));
    }
    assert!(!is_invalid_start_instruction(&MyInstruction::new(ADDU_V0_A0)));
}

#[test]
fn reads_through_ra_are_plausible_starts() {
    // only a store via $ra is ruled out: arithmetic on $ra and loads from
    // $ra read an initialized register and may open a function
    assert!(!is_invalid_start_instruction(&MyInstruction::new(ADDU_V0_RA_A0)));
    assert!(!is_invalid_start_instruction(&MyInstruction::new(LW_VIA_RA)));
    assert!(is_invalid_start_instruction(&MyInstruction::new(SW_VIA_RA)));
}

#[test]
fn antirepetition_rejects_duplicate_loads() {
    // four identical lw words fail check_range even though each word alone
    // passes the classifier
    let rom = build_rom(&[LW_V0_A0, LW_V0_A0, LW_V0_A0, LW_V0_A0]);
    assert!(cpu_is_valid(&MyInstruction::new(LW_V0_A0)));
    assert!(!check_range(IPL3_END, IPL3_END + 16, &rom));
    // three in a row are still plausible
    assert!(check_range(IPL3_END, IPL3_END + 12, &rom));
}

#[test]
fn return_marker_needs_valid_delay_slot() {
    // a jr $ra whose delay slot decodes as garbage anchors no region
    let rom = build_rom(&[JR_RA, GARBAGE]);
    assert!(find_return_locations(&rom).is_empty());
    assert!(find_code_regions(&rom).is_empty());
}

#[test]
fn end_trim_stops_after_return_pair() {
    // the forward scan runs one valid instruction past the jr/delay pair;
    // trimming retracts the end to just after the pair
    let rom = build_rom(&[ADDU_V0_A0, JR_RA, NOP, ADDU_V0_A0, GARBAGE]);
    let regions = region_tuples(&rom);
    assert_eq!(regions, vec![(IPL3_END, IPL3_END + 12, false)]);
}

#[test]
fn discovery_is_idempotent() {
    let rom = build_rom(&[
        ADDU_V0_A0, JR_RA, NOP, GARBAGE, GARBAGE, GARBAGE, ADDU_V0_A0, JR_RA, NOP, GARBAGE,
    ]);
    let first = find_code_regions(&rom);
    let second = find_code_regions(&rom);
    assert_eq!(first, second);
}

#[test]
fn regions_contained_sorted_disjoint() {
    // two code blobs separated by a wide stretch of invalid words
    let mut words = vec![ADDU_V0_A0, JR_RA, NOP];
    words.extend(std::iter::repeat(GARBAGE).take(1200));
    words.extend_from_slice(&[ADDU_V0_A0, JR_RA, NOP, GARBAGE]);
    let rom = build_rom(&words);
    let regions = find_code_regions(&rom);
    assert_eq!(regions.len(), 2);
    for r in &regions {
        assert!(IPL3_END <= r.rom_start());
        assert!(r.rom_start() < r.rom_end());
        assert!(r.rom_end() <= rom.len());
        assert_eq!(r.rom_start() % 4, 0);
        assert_eq!(r.rom_end() % 4, 0);
    }
    for pair in regions.windows(2) {
        assert!(pair[0].rom_end() <= pair[1].rom_start());
        assert!(pair[0].rom_start() < pair[1].rom_start());
    }
    assert_eq!(find_return_locations(&rom).len(), 2);
}

#[test]
fn rsp_gap_merges_regions() {
    // region A, a 28-byte gap of words valid only as RSP microcode (with an
    // mtc0 naming SP_STATUS), then region B: the regions merge with has_rsp
    let rom = build_rom(&[
        ADDU_V0_A0,
        JR_RA,
        NOP,
        RSP_MTC0_STATUS,
        VADD,
        VADD,
        VADD,
        VADD,
        VADD,
        VADD,
        ADDU_V0_A0,
        JR_RA,
        NOP,
        GARBAGE,
    ]);
    let regions = region_tuples(&rom);
    assert_eq!(regions, vec![(IPL3_END, IPL3_END + 52, true)]);
}

#[test]
fn cpu_gap_merges_regions_silently() {
    // the same layout with a CPU-valid gap merges without the RSP mark
    let rom = build_rom(&[
        ADDU_V0_A0,
        JR_RA,
        NOP,
        ADDU_V0_A0,
        ADDU_V0_A0,
        ADDU_V0_A0,
        ADDU_V0_A0,
        ADDU_V0_A0,
        ADDU_V0_A0,
        ADDU_V0_A0,
        ADDU_V0_A0,
        JR_RA,
        NOP,
        GARBAGE,
    ]);
    let regions = region_tuples(&rom);
    assert_eq!(regions, vec![(IPL3_END, IPL3_END + 52, false)]);
}

#[test]
fn region_accessors_roundtrip() {
    let mut region = RomRegion::new(0x2000, 0x3000);
    assert_eq!(region.rom_start(), 0x2000);
    assert_eq!(region.rom_end(), 0x3000);
    assert!(!region.has_rsp());
    region.set_rom_start(0x2100);
    region.set_rom_end(0x2F00);
    region.set_has_rsp(true);
    assert_eq!(region.rom_start(), 0x2100);
    assert_eq!(region.rom_end(), 0x2F00);
    assert!(region.has_rsp());
}

#[test]
fn lone_return_collapses_to_nothing() {
    // a bare jr/delay pair is no plausible function start, so its region
    // trims to empty and empty regions are never emitted
    let rom = build_rom(&[JR_RA, NOP]);
    assert_eq!(find_return_locations(&rom).len(), 1);
    assert!(find_code_regions(&rom).is_empty());
}

#[test]
fn trim_drops_leading_junk_and_loose_tail() {
    let rom = build_rom(&[NOP, NOP, ADDU_V0_A0, JR_RA, NOP, ADDU_V0_A0]);
    let mut region = RomRegion::new(IPL3_END, rom.len());
    trim_region(&mut region, &rom);
    assert_eq!(region.rom_start(), IPL3_END + 8);
    assert_eq!(region.rom_end(), IPL3_END + 20);
}

#[test]
fn short_buffer_finds_nothing() {
    let rom = vec![0u8; 16];
    assert!(find_code_regions(&rom).is_empty());
}
