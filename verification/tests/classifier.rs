use findcode::analysis::MipsCop0r;
use findcode::analysis::MipsGpr;
use findcode::analysis::MyInstruction;
use findcode::findcode::is_valid as cpu_is_valid;
use findcode::microcode;

const ADDU_V0_A0: u32 = 0x00801021; // addu $v0, $a0, $zero
const JR_RA: u32 = 0x03E00008;
const NOP: u32 = 0;
const LW_ZERO_BASE: u32 = 0x8C020000; // lw $v0, 0($zero)
const ADDU_TO_ZERO: u32 = 0x00850021; // addu $zero, $a0, $a1
const LL_V0: u32 = 0xC0820000; // ll $v0, 0($a0)
const PREF: u32 = 0xCC820000; // pref 2, 0($a0)
const LWC2: u32 = 0xC8820000; // lwc2 $2, 0($a0)
const TEQ: u32 = 0x00850034; // teq $a0, $a1
const MTC0_RESERVED: u32 = 0x40883800; // mtc0 $t0, $7 (reserved)
const MTC0_STATUS: u32 = 0x40886000; // mtc0 $t0, Status
const CACHE_GOOD: u32 = 0xBC850000; // cache op 1, type 1
const CACHE_BAD: u32 = 0xBC9F0000; // cache op 7, type 3
const VADD: u32 = 0x4A000010; // RSP vadd
const RSP_MTC0_STATUS: u32 = 0x40882000; // RSP mtc0 $t0, SP_STATUS
const RSP_MTC0_RESERVED: u32 = 0x4088A000; // RSP mtc0 $t0, 20 (reserved)
const GARBAGE: u32 = 0xFFFFFFFF;

fn cpu_valid(w: u32) -> bool {
    cpu_is_valid(&MyInstruction::new(w))
}

fn rsp_valid(w: u32) -> bool {
    microcode::is_valid(&MyInstruction::new(w))
}

#[test]
fn cpu_accepts_plain_code() {
    assert!(cpu_valid(ADDU_V0_A0));
    assert!(cpu_valid(JR_RA));
    assert!(cpu_valid(NOP));
}

#[test]
fn cpu_rejects_zero_base_memory() {
    assert!(!cpu_valid(LW_ZERO_BASE));
}

#[test]
fn cpu_rejects_zero_destination() {
    assert!(!cpu_valid(ADDU_TO_ZERO));
}

#[test]
fn cpu_rejects_platform_unused_instructions() {
    assert!(!cpu_valid(LL_V0));
    assert!(!cpu_valid(PREF));
    assert!(!cpu_valid(LWC2));
    assert!(!cpu_valid(TEQ));
}

#[test]
fn cpu_cop0_register_must_be_defined() {
    assert!(!cpu_valid(MTC0_RESERVED));
    assert!(cpu_valid(MTC0_STATUS));
}

#[test]
fn cpu_cache_parameters_checked() {
    assert!(cpu_valid(CACHE_GOOD));
    assert!(!cpu_valid(CACHE_BAD));
}

#[test]
fn rsp_accepts_vector_code() {
    assert!(rsp_valid(VADD));
    assert!(rsp_valid(RSP_MTC0_STATUS));
    // the vector add is not CPU code
    assert!(!cpu_valid(VADD));
}

#[test]
fn rsp_rejects_unknown_and_reserved() {
    assert!(!rsp_valid(GARBAGE));
    assert!(!rsp_valid(RSP_MTC0_RESERVED));
}

#[test]
fn classifiers_total_over_word_space() {
    // Walk a pseudo-random spread of the 32-bit space plus the corners;
    // both classifiers must return without faulting on every word.
    let mut w: u32 = 0x12345678;
    let mut cpu_count: u64 = 0;
    let mut rsp_count: u64 = 0;
    for _ in 0..20000 {
        w = w.wrapping_mul(1664525).wrapping_add(1013904223);
        if cpu_valid(w) {
            cpu_count += 1;
        }
        if rsp_valid(w) {
            rsp_count += 1;
        }
    }
    for corner in [0u32, 1, 0x7FFFFFFF, 0x80000000, 0xFFFFFFFF] {
        cpu_valid(corner);
        rsp_valid(corner);
    }
    // both outcomes occur over the space
    assert!(cpu_count > 0 && cpu_count < 20000);
    assert!(rsp_count > 0 && rsp_count < 20000);
}

#[test]
fn byte_level_entry_points_read_one_word() {
    let mut bytes = CACHE_GOOD.to_be_bytes().to_vec();
    bytes.extend_from_slice(&GARBAGE.to_be_bytes());
    assert!(findcode::findcode::is_valid_bytes(&bytes));
    assert!(!microcode::is_valid_bytes(&bytes));
    let vector = VADD.to_be_bytes();
    assert!(microcode::is_valid_bytes(&vector));
}

#[test]
fn operand_getters_read_the_fields() {
    let instr = MyInstruction::new(ADDU_V0_A0);
    assert_eq!(instr.instr_get_rs(), MipsGpr::a0);
    assert_eq!(instr.instr_get_rt(), MipsGpr::zero);
    assert_eq!(instr.instr_get_rd(), MipsGpr::v0);
    assert_eq!(instr.instr_get_sa(), 0);
    let status = MyInstruction::new(MTC0_STATUS);
    assert_eq!(status.instr_get_cop0_rd(), Ok(MipsCop0r::Status));
    let reserved = MyInstruction::new(MTC0_RESERVED);
    assert_eq!(reserved.instr_get_cop0_rd(), Err(7));
}

#[test]
fn rsp_cop0_getter_names_registers() {
    let instr = MyInstruction::new(RSP_MTC0_STATUS);
    assert_eq!(
        microcode::instr_get_cop0_rd(&instr),
        Ok(microcode::RSPCop0r::SP_STATUS)
    );
    let reserved = MyInstruction::new(RSP_MTC0_RESERVED);
    assert_eq!(microcode::instr_get_cop0_rd(&reserved), Err(20));
}
