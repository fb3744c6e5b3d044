use findcode::IPL3_END;
use findcode::compiler::BJ_THRESHOLD;
use findcode::compiler::CompilerSet;
use findcode::compiler::b_vs_j;
use findcode::compiler::break_6_7_pattern;
use findcode::compiler::float_load_pattern;
use findcode::compression::CompressedSegment;
use findcode::compression::Type;
use findcode::compression::find_all;
use findcode::compression::find_magic;
use findcode::findcode::RomRegion;
use findcode::utils::Endian;
use findcode::utils::get_endian;
use findcode::utils::read_be_word;
use findcode::utils::reend_array;
use findcode::utils::round_down;
use findcode::utils::round_up;

const ADDU_V0_A0: u32 = 0x00801021;
const JR_RA: u32 = 0x03E00008;
const NOP: u32 = 0;
const B_PLUS_ONE: u32 = 0x10000001; // b +1
const J_TARGET: u32 = 0x08000040; // j
const LUI_AT: u32 = 0x3C010001; // lui $at, 1
const ORI_AT_AT: u32 = 0x34210005; // ori $at, $at, 5
const MTC1_AT: u32 = 0x44810000; // mtc1 $at, $f0
const MTC1_T0: u32 = 0x44880000; // mtc1 $t0, $f0
const BREAK_6: u32 = 0x0006000D; // break with upper code 6
const BREAK_7: u32 = 0x0007000D; // break with upper code 7
const MFHI_T0: u32 = 0x00004010; // mfhi $t0
const ADDIU_AT_M1: u32 = 0x2420FFFF; // addiu with rs $at, rt $zero, -1

fn build_rom(words: &[u32]) -> Vec<u8> {
    let mut rom = vec![0u8; IPL3_END];
    for w in words {
        rom.extend_from_slice(&w.to_be_bytes());
    }
    rom
}

fn whole_window(rom: &[u8]) -> RomRegion {
    RomRegion::new(IPL3_END, rom.len())
}

#[test]
fn endian_detection_by_header() {
    assert_eq!(get_endian(&[0x80, 0x37, 0x12, 0x40]), Some(Endian::Good));
    assert_eq!(get_endian(&[0x40, 0x12, 0x37, 0x80]), Some(Endian::Bad));
    assert_eq!(get_endian(&[0x37, 0x80, 0x40, 0x12]), Some(Endian::Ugly));
    assert_eq!(get_endian(&[0x00, 0x11, 0x22, 0x33]), None);
    assert_eq!(get_endian(&[0x80, 0x37]), None);
}

#[test]
fn reend_swaps_into_big_endian() {
    let mut bad = vec![0x40, 0x12, 0x37, 0x80, 4, 3, 2, 1];
    reend_array(&mut bad, &Endian::Bad);
    assert_eq!(bad, vec![0x80, 0x37, 0x12, 0x40, 1, 2, 3, 4]);

    let mut ugly = vec![0x37, 0x80, 0x40, 0x12, 2, 1, 4, 3];
    reend_array(&mut ugly, &Endian::Ugly);
    assert_eq!(ugly, vec![0x80, 0x37, 0x12, 0x40, 1, 2, 3, 4]);

    let mut good = vec![0x80, 0x37, 0x12, 0x40];
    reend_array(&mut good, &Endian::Good);
    assert_eq!(good, vec![0x80, 0x37, 0x12, 0x40]);
}

#[test]
fn big_endian_word_read() {
    assert_eq!(read_be_word(&[0x12, 0x34, 0x56, 0x78]), 0x12345678);
    assert_eq!(read_be_word(&[0xFF, 0x00, 0x00, 0x01]), 0xFF000001);
}

#[test]
fn rounding_helpers() {
    assert_eq!(round_up(0x1234, 0x10), 0x1240);
    assert_eq!(round_up(0x1240, 0x10), 0x1240);
    assert_eq!(round_down(0x1234, 0x10), 0x1230);
    assert_eq!(round_down(0x1230, 0x10), 0x1230);
}

#[test]
fn compression_magic_scan() {
    let mut rom = b"MIO0".to_vec();
    rom.extend_from_slice(&[0; 4]);
    rom.extend_from_slice(b"Yaz0");
    rom.extend_from_slice(b"Yay0");
    // an unaligned occurrence is not reported
    rom.extend_from_slice(&[0, b'M', b'I', b'O', b'0', 0, 0, 0]);
    let mio = find_magic(&rom, Type::MIO0);
    assert_eq!(
        mio,
        vec![CompressedSegment { algorithm: Type::MIO0, rom_start: 0 }]
    );
    let all = find_all(&rom);
    assert_eq!(
        all,
        vec![
            CompressedSegment { algorithm: Type::MIO0, rom_start: 0 },
            CompressedSegment { algorithm: Type::Yaz0, rom_start: 8 },
            CompressedSegment { algorithm: Type::Yay0, rom_start: 12 },
        ]
    );
}

#[test]
fn branch_style_narrows_compilers() {
    // twelve `b` branches against one `j`: enough to call it IDO
    let mut words = vec![B_PLUS_ONE; BJ_THRESHOLD + 2];
    words.push(J_TARGET);
    words.extend_from_slice(&[ADDU_V0_A0, JR_RA, NOP]);
    let rom = build_rom(&words);
    let mut set = CompilerSet::full();
    let (b_count, j_count) = b_vs_j(&rom, &whole_window(&rom), &mut set);
    assert_eq!(b_count, BJ_THRESHOLD + 2);
    assert_eq!(j_count, 1);
    assert!(set.ido53 && set.ido71);
    assert!(!set.kmcgcc && !set.isgcc && !set.sn64 && !set.sncxx && !set.mwcc);
    assert_eq!(set.count(), 2);
}

#[test]
fn too_few_branches_stay_undecided() {
    let rom = build_rom(&[B_PLUS_ONE, J_TARGET, JR_RA, NOP]);
    let mut set = CompilerSet::full();
    let (b_count, j_count) = b_vs_j(&rom, &whole_window(&rom), &mut set);
    assert_eq!((b_count, j_count), (1, 1));
    assert_eq!(set, CompilerSet::full());
}

#[test]
fn float_load_pattern_drops_sn() {
    // lui $at / ori $at, $at / mtc1 $at is the through-$at float load
    let rom = build_rom(&[LUI_AT, ORI_AT_AT, MTC1_AT, JR_RA, NOP]);
    let mut set = CompilerSet::full();
    let (pattern, isolated) = float_load_pattern(&rom, &whole_window(&rom), &mut set);
    assert_eq!((pattern, isolated), (1, 0));
    assert!(!set.sn64 && !set.sncxx);
    assert!(set.ido53 && set.kmcgcc && set.mwcc);
}

#[test]
fn isolated_mtc1_narrows_to_ido() {
    let rom = build_rom(&[MTC1_T0, JR_RA, NOP]);
    let mut set = CompilerSet::full();
    let (pattern, isolated) = float_load_pattern(&rom, &whole_window(&rom), &mut set);
    assert_eq!((pattern, isolated), (0, 1));
    assert!(set.ido53 && set.ido71);
    assert_eq!(set.count(), 2);
}

#[test]
fn break_followers_counted() {
    let rom = build_rom(&[
        BREAK_6, MFHI_T0, BREAK_7, ADDIU_AT_M1, BREAK_7, MFHI_T0, JR_RA, NOP,
    ]);
    let mut set = CompilerSet::full();
    let counts = break_6_7_pattern(&rom, &whole_window(&rom), &mut set);
    assert_eq!(counts, (1, 0, 2, 0));
    // nothing irregular: the set is untouched
    assert_eq!(set, CompilerSet::full());
}

#[test]
fn irregular_break_follower_means_ido() {
    let rom = build_rom(&[BREAK_6, ADDU_V0_A0, JR_RA, NOP]);
    let mut set = CompilerSet::full();
    let counts = break_6_7_pattern(&rom, &whole_window(&rom), &mut set);
    assert_eq!(counts, (0, 1, 0, 0));
    assert_eq!(set.count(), 2);
    assert!(set.ido53 && set.ido71);
}

#[test]
fn analysis_configuration_carries_switches() {
    let args = findcode::Args {
        rom: String::from("game.z64"),
        end: Some(0x100000),
        determine_compiler: true,
        find_compressed: false,
        estimate_function_count: true,
    };
    assert_eq!(args.rom, "game.z64");
    assert_eq!(args.end, Some(0x100000));
    assert!(args.determine_compiler && !args.find_compressed);
    assert!(args.estimate_function_count);
}

#[test]
fn compiler_set_operations() {
    let mut set = CompilerSet::empty();
    assert_eq!(set.count(), 0);
    let full = CompilerSet::full();
    set.extend(&full);
    assert_eq!(set, full);
    assert_eq!(set.count(), 7);
}
