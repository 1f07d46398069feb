use gb_core::cpu::CPU;
use gb_core::instruction::Instr;

/// A processor around a 32 KiB cartridge that holds `program` at 0x0100.
fn cpu_with(program: &[u8]) -> CPU {
    let mut cart = vec![0u8; 0x8000];
    cart[0x100..0x100 + program.len()].copy_from_slice(program);
    CPU::new(cart)
}

/// Makes `steps` steps and returns the cycles they took.
fn run(cpu: &mut CPU, steps: usize) -> usize {
    let mut cycles = 0;
    for _ in 0..steps {
        assert!(cpu.can_step());
        cycles += cpu.step();
        assert_eq!(cpu.register.f & 0x0f, 0);
    }
    cycles
}

#[test]
fn new_processor_is_in_the_state_after_boot() {
    let cpu = cpu_with(&[]);
    assert_eq!(cpu.register.a, 0x01);
    assert_eq!(cpu.register.f, 0xb0);
    assert_eq!(cpu.register.pc, 0x0100);
    assert_eq!(cpu.register.sp, 0xfffe);
    assert!(cpu.interrupt.master);
    assert!(!cpu.halted);
    assert_eq!(cpu.memory.read_8(0xc000), 0);
}

#[test]
fn reset_and_fetch() {
    let mut cpu = cpu_with(&[0x00, 0x00]);
    let first = cpu.step();
    assert_eq!(first, 4);
    assert_eq!(cpu.register.pc, 0x0101);
    let second = cpu.step();
    assert_eq!(cpu.register.pc, 0x0102);
    assert_eq!(first + second, 8);
    assert_eq!(cpu.register.a, 0x01);
    assert_eq!(cpu.register.f, 0xb0);
}

#[test]
fn jump_relative_back_edge() {
    let mut cpu = cpu_with(&[0x18, 0xfe]);
    assert_eq!(cpu.step(), 12);
    assert_eq!(cpu.register.pc, 0x0100);
    assert_eq!(run(&mut cpu, 100), 1200);
    assert_eq!(cpu.register.pc, 0x0100);
}

#[test]
fn jump_relative_forward_and_far_back() {
    let mut cpu = cpu_with(&[0x18, 0x7f]);
    assert_eq!(cpu.step(), 12);
    assert_eq!(cpu.register.pc, 0x0181);
    let mut cpu = cpu_with(&[0x18, 0x80]);
    assert_eq!(cpu.step(), 12);
    assert_eq!(cpu.register.pc, 0x0082);
    let mut cpu = cpu_with(&[0x18, 0x00]);
    assert_eq!(cpu.step(), 12);
    assert_eq!(cpu.register.pc, 0x0102);
}

#[test]
fn call_and_return() {
    let mut cart = vec![0u8; 0x8000];
    cart[0x100] = 0xcd;
    cart[0x101] = 0x00;
    cart[0x102] = 0x02;
    cart[0x103] = 0x76;
    cart[0x200] = 0xc9;
    let mut cpu = CPU::new(cart);
    assert_eq!(cpu.step(), 24);
    assert_eq!(cpu.register.pc, 0x0200);
    assert_eq!(cpu.register.sp, 0xfffc);
    assert_eq!(cpu.memory.read_8(0xfffc), 0x03);
    assert_eq!(cpu.memory.read_8(0xfffd), 0x01);
    assert_eq!(cpu.step(), 16);
    assert_eq!(cpu.register.pc, 0x0103);
    assert_eq!(cpu.register.sp, 0xfffe);
    assert_eq!(cpu.step(), 4);
    assert!(cpu.halted);
    assert_eq!(cpu.register.pc, 0x0104);
    assert_eq!(cpu.step(), 4);
    assert_eq!(cpu.register.pc, 0x0104);
}

#[test]
fn interrupt_dispatch() {
    let mut cpu = cpu_with(&[0x00]);
    cpu.interrupt.master = true;
    cpu.memory.write_8(0xffff, 0x01);
    cpu.memory.write_8(0xff0f, 0x01);
    cpu.register.pc = 0x1234;
    assert_eq!(cpu.step(), 16);
    assert_eq!(cpu.memory.read_8(0xff0f) & 0x01, 0);
    assert!(!cpu.interrupt.master);
    assert_eq!(cpu.register.pc, 0x0040);
    assert_eq!(cpu.register.sp, 0xfffc);
    assert_eq!(cpu.memory.read_16(0xfffc), 0x1234);
    assert_eq!(cpu.memory.read_8(0xfffc), 0x34);
    assert_eq!(cpu.memory.read_8(0xfffd), 0x12);
}

#[test]
fn interrupt_dispatch_takes_one_source_by_priority() {
    let mut cpu = cpu_with(&[0x00]);
    cpu.memory.write_8(0xffff, 0x1f);
    cpu.memory.write_8(0xff0f, 0x14);
    assert_eq!(cpu.step(), 16);
    assert_eq!(cpu.register.pc, 0x0050);
    assert_eq!(cpu.memory.read_8(0xff0f), 0x10);
    assert!(!cpu.interrupt.master);
    // IME is clear now: the keypad source waits, and the program goes on.
    assert_eq!(cpu.step(), 4);
    assert_eq!(cpu.register.pc, 0x0051);
    assert_eq!(cpu.memory.read_8(0xff0f), 0x10);
}

#[test]
fn interrupt_waits_for_ime() {
    let mut cpu = cpu_with(&[0x00]);
    cpu.interrupt.master = false;
    cpu.memory.write_8(0xffff, 0x01);
    cpu.memory.write_8(0xff0f, 0x01);
    assert_eq!(cpu.step(), 4);
    assert_eq!(cpu.register.pc, 0x0101);
    assert_eq!(cpu.memory.read_8(0xff0f), 0x01);
}

#[test]
fn ei_then_di_leaves_ime_clear() {
    let mut cpu = cpu_with(&[0xfb, 0xf3, 0x00, 0x00]);
    cpu.interrupt.master = false;
    assert_eq!(cpu.step(), 4);
    assert!(!cpu.interrupt.master);
    assert_eq!(cpu.step(), 4);
    assert!(!cpu.interrupt.master);
    // The enable fires one step late, and the disable one step after it.
    cpu.step();
    assert!(cpu.interrupt.master);
    cpu.step();
    assert!(!cpu.interrupt.master);
}

#[test]
fn ei_takes_effect_after_the_next_instruction() {
    let mut cpu = cpu_with(&[0xfb, 0x00, 0x00]);
    cpu.interrupt.master = false;
    cpu.step();
    assert!(!cpu.interrupt.master);
    cpu.step();
    assert!(!cpu.interrupt.master);
    cpu.step();
    assert!(cpu.interrupt.master);
}

#[test]
fn di_takes_effect_after_the_next_instruction() {
    let mut cpu = cpu_with(&[0xf3, 0x00, 0x00]);
    cpu.step();
    assert!(cpu.interrupt.master);
    cpu.step();
    assert!(cpu.interrupt.master);
    cpu.step();
    assert!(!cpu.interrupt.master);
}

#[test]
fn timer_overflow_reaches_the_processor() {
    let mut cpu = cpu_with(&[0x00, 0x00]);
    cpu.memory.write_8(0xffff, 0x04);
    cpu.memory.write_8(0xff07, 0x05);
    cpu.memory.write_8(0xff06, 0xfe);
    cpu.memory.write_8(0xff05, 0xff);
    let mut cycles = 0;
    while cycles < 16 {
        let n = cpu.step();
        cpu.memory.step(n);
        cycles += n;
    }
    assert_eq!(cpu.memory.read_8(0xff05), 0xfe);
    assert_eq!(cpu.memory.read_8(0xff0f) & 0x04, 0x04);
    assert_eq!(cpu.step(), 16);
    assert_eq!(cpu.register.pc, 0x0050);
    assert_eq!(cpu.memory.read_8(0xff0f) & 0x04, 0);
}

#[test]
fn halt_idles_until_a_source_is_pending() {
    let mut cpu = cpu_with(&[0x76, 0x3c]);
    cpu.interrupt.master = false;
    cpu.memory.write_8(0xffff, 0x04);
    assert_eq!(cpu.step(), 4);
    assert!(cpu.halted);
    assert_eq!(run(&mut cpu, 10), 40);
    assert_eq!(cpu.register.pc, 0x0101);
    cpu.memory.write_8(0xff0f, 0x04);
    // IME is clear: the halt ends without vectoring.
    assert_eq!(cpu.step(), 4);
    assert!(!cpu.halted);
    assert_eq!(cpu.register.pc, 0x0102);
    assert_eq!(cpu.register.a, 0x02);
    assert_eq!(cpu.memory.read_8(0xff0f), 0x04);
}

#[test]
fn halt_ends_with_a_serviced_interrupt() {
    let mut cpu = cpu_with(&[0x76]);
    cpu.memory.write_8(0xffff, 0x01);
    cpu.step();
    assert!(cpu.halted);
    cpu.memory.write_8(0xff0f, 0x01);
    assert_eq!(cpu.step(), 16);
    assert!(!cpu.halted);
    assert_eq!(cpu.register.pc, 0x0040);
    assert_eq!(cpu.memory.read_16(0xfffc), 0x0101);
}

#[test]
fn halt_is_not_ended_by_a_source_that_is_not_enabled() {
    let mut cpu = cpu_with(&[0x76]);
    cpu.memory.write_8(0xffff, 0x01);
    cpu.step();
    cpu.memory.write_8(0xff0f, 0x02);
    assert_eq!(cpu.step(), 4);
    assert!(cpu.halted);
}

#[test]
fn add_a_n_sets_zero_half_carry_and_carry() {
    let mut cpu = cpu_with(&[0x3e, 0x3a, 0xc6, 0xc6]);
    assert_eq!(cpu.step(), 8);
    assert_eq!(cpu.register.a, 0x3a);
    assert_eq!(cpu.step(), 8);
    assert_eq!(cpu.register.a, 0x00);
    assert_eq!(cpu.register.f, 0xb0);
}

#[test]
fn sub_a_a_gives_zero() {
    for a in [0x00u8, 0x01, 0x3a, 0x80, 0xff] {
        let mut cpu = cpu_with(&[0x3e, a, 0x97]);
        cpu.step();
        assert_eq!(cpu.step(), 4);
        assert_eq!(cpu.register.a, 0x00);
        assert_eq!(cpu.register.f, 0xc0);
    }
}

#[test]
fn xor_a_a_gives_zero() {
    for a in [0x00u8, 0x01, 0x3a, 0x80, 0xff] {
        let mut cpu = cpu_with(&[0x3e, a, 0xaf]);
        cpu.step();
        assert_eq!(cpu.step(), 4);
        assert_eq!(cpu.register.a, 0x00);
        assert_eq!(cpu.register.f, 0x80);
    }
}

#[test]
fn inc_hl_indirect_costs_12_and_keeps_carry() {
    // LD HL,0xC000; LD (HL),0xFF; SCF; INC (HL)
    let mut cpu = cpu_with(&[0x21, 0x00, 0xc0, 0x36, 0xff, 0x37, 0x34, 0x3f, 0x34]);
    assert_eq!(cpu.step(), 12);
    assert_eq!(cpu.step(), 12);
    assert_eq!(cpu.step(), 4);
    assert_eq!(cpu.step(), 12);
    assert_eq!(cpu.memory.read_8(0xc000), 0x00);
    assert_eq!(cpu.register.f, 0xb0);
    // CCF; INC (HL): carry stays clear.
    assert_eq!(cpu.step(), 4);
    assert_eq!(cpu.step(), 12);
    assert_eq!(cpu.memory.read_8(0xc000), 0x01);
    assert_eq!(cpu.register.f, 0x00);
}

#[test]
fn daa_after_add() {
    // LD A,0x01; ADD A,0x0F; DAA. The sum is 0x10 with a half carry, which
    // the adjustment turns into 0x16.
    let mut cpu = cpu_with(&[0x3e, 0x01, 0xc6, 0x0f, 0x27]);
    cpu.step();
    cpu.step();
    assert_eq!(cpu.register.a, 0x10);
    assert_eq!(cpu.register.f, 0x20);
    assert_eq!(cpu.step(), 4);
    assert_eq!(cpu.register.a, 0x16);
    assert_eq!(cpu.register.f & 0x20, 0);
    assert_eq!(cpu.register.f & 0x10, 0);
    assert_eq!(cpu.register.f, 0x00);
}

#[test]
fn daa_adjusts_a_digit_above_nine() {
    // LD A,0x19; ADD A,0x01; DAA: 19 + 1 = 20 in decimal digits.
    let mut cpu = cpu_with(&[0x3e, 0x19, 0xc6, 0x01, 0x27]);
    run(&mut cpu, 3);
    assert_eq!(cpu.register.a, 0x20);
    assert_eq!(cpu.register.f, 0x00);
}

#[test]
fn daa_carries_into_the_hundreds() {
    // LD A,0x99; ADD A,0x01; DAA: 99 + 1 = (1)00.
    let mut cpu = cpu_with(&[0x3e, 0x99, 0xc6, 0x01, 0x27]);
    run(&mut cpu, 3);
    assert_eq!(cpu.register.a, 0x00);
    assert_eq!(cpu.register.f, 0x90);
}

#[test]
fn daa_after_sub() {
    // LD A,0x10; SUB 0x01; DAA: 10 - 1 = 09.
    let mut cpu = cpu_with(&[0x3e, 0x10, 0xd6, 0x01, 0x27]);
    run(&mut cpu, 2);
    assert_eq!(cpu.register.a, 0x0f);
    assert_eq!(cpu.register.f, 0x60);
    cpu.step();
    assert_eq!(cpu.register.a, 0x09);
    assert_eq!(cpu.register.f, 0x40);
}

#[test]
fn ld_hl_sp_plus_d_sign_extends_and_takes_flags_from_the_low_byte() {
    // LD SP,0x0001; LD HL,SP+0x80
    let mut cpu = cpu_with(&[0x31, 0x01, 0x00, 0xf8, 0x80]);
    assert_eq!(cpu.step(), 12);
    assert_eq!(cpu.step(), 12);
    assert_eq!(cpu.register.get_hl(), 0xff81);
    assert_eq!(cpu.register.sp, 0x0001);
    assert_eq!(cpu.register.f, 0x00);
}

#[test]
fn ld_hl_sp_plus_d_carries_out_of_the_low_byte() {
    // LD SP,0x00FF; LD HL,SP+0x01
    let mut cpu = cpu_with(&[0x31, 0xff, 0x00, 0xf8, 0x01]);
    run(&mut cpu, 2);
    assert_eq!(cpu.register.get_hl(), 0x0100);
    assert_eq!(cpu.register.f, 0x30);
    // LD SP,0x000F; LD HL,SP+0x01: only the half carry.
    let mut cpu = cpu_with(&[0x31, 0x0f, 0x00, 0xf8, 0x01]);
    run(&mut cpu, 2);
    assert_eq!(cpu.register.get_hl(), 0x0010);
    assert_eq!(cpu.register.f, 0x20);
}

#[test]
fn add_sp_d() {
    // ADD SP,0x02 from 0xFFFE wraps to 0.
    let mut cpu = cpu_with(&[0xe8, 0x02]);
    assert_eq!(cpu.step(), 16);
    assert_eq!(cpu.register.sp, 0x0000);
    assert_eq!(cpu.register.f, 0x30);
    // LD SP,0x0001; ADD SP,-1
    let mut cpu = cpu_with(&[0x31, 0x01, 0x00, 0xe8, 0xff]);
    run(&mut cpu, 2);
    assert_eq!(cpu.register.sp, 0x0000);
    assert_eq!(cpu.register.f, 0x30);
    // LD SP,0x0100; ADD SP,-1
    let mut cpu = cpu_with(&[0x31, 0x00, 0x01, 0xe8, 0xff]);
    run(&mut cpu, 2);
    assert_eq!(cpu.register.sp, 0x00ff);
    assert_eq!(cpu.register.f, 0x00);
}

#[test]
fn rlca_clears_zero() {
    let mut cpu = cpu_with(&[0x3e, 0x85, 0x07]);
    cpu.step();
    assert_eq!(cpu.step(), 4);
    assert_eq!(cpu.register.a, 0x0b);
    assert_eq!(cpu.register.f, 0x10);
    // A zero result leaves Z clear all the same.
    let mut cpu = cpu_with(&[0x3e, 0x00, 0x07]);
    run(&mut cpu, 2);
    assert_eq!(cpu.register.a, 0x00);
    assert_eq!(cpu.register.f, 0x00);
}

#[test]
fn rotations_of_a() {
    // LD A,0x01; RRCA
    let mut cpu = cpu_with(&[0x3e, 0x01, 0x0f]);
    run(&mut cpu, 2);
    assert_eq!(cpu.register.a, 0x80);
    assert_eq!(cpu.register.f, 0x10);
    // LD A,0x80; RLA with carry set: the carry comes in below.
    let mut cpu = cpu_with(&[0x3e, 0x80, 0x17]);
    run(&mut cpu, 2);
    assert_eq!(cpu.register.a, 0x01);
    assert_eq!(cpu.register.f, 0x10);
    // LD A,0x01; RRA with carry set: the carry comes in above.
    let mut cpu = cpu_with(&[0x3e, 0x01, 0x1f]);
    run(&mut cpu, 2);
    assert_eq!(cpu.register.a, 0x80);
    assert_eq!(cpu.register.f, 0x10);
    // CCF; LD A,0x01; RRA with carry clear.
    let mut cpu = cpu_with(&[0x3f, 0x3e, 0x01, 0x1f]);
    run(&mut cpu, 3);
    assert_eq!(cpu.register.a, 0x00);
    assert_eq!(cpu.register.f, 0x10);
}

#[test]
fn bit_7_h_keeps_carry() {
    // LD H,0x80; BIT 7,H with carry set
    let mut cpu = cpu_with(&[0x26, 0x80, 0xcb, 0x7c]);
    cpu.step();
    assert_eq!(cpu.step(), 8);
    assert_eq!(cpu.register.f, 0x30);
    assert_eq!(cpu.register.h, 0x80);
    // CCF; LD H,0x7F; BIT 7,H with carry clear
    let mut cpu = cpu_with(&[0x3f, 0x26, 0x7f, 0xcb, 0x7c]);
    run(&mut cpu, 3);
    assert_eq!(cpu.register.f, 0xa0);
}

#[test]
fn push_then_pop_gives_the_pair_back() {
    // LD BC,0x1234; PUSH BC; POP DE
    let mut cpu = cpu_with(&[0x01, 0x34, 0x12, 0xc5, 0xd1]);
    assert_eq!(cpu.step(), 12);
    assert_eq!(cpu.step(), 16);
    assert_eq!(cpu.register.sp, 0xfffc);
    assert_eq!(cpu.memory.read_8(0xfffc), 0x34);
    assert_eq!(cpu.memory.read_8(0xfffd), 0x12);
    assert_eq!(cpu.step(), 12);
    assert_eq!(cpu.register.get_rp(1), 0x1234);
    assert_eq!(cpu.register.sp, 0xfffe);
}

#[test]
fn push_af_then_pop_af() {
    // PUSH AF; XOR A; POP AF
    let mut cpu = cpu_with(&[0xf5, 0xaf, 0xf1]);
    run(&mut cpu, 2);
    assert_eq!(cpu.register.a, 0x00);
    assert_eq!(cpu.register.f, 0x80);
    cpu.step();
    assert_eq!(cpu.register.a, 0x01);
    assert_eq!(cpu.register.f, 0xb0);
    assert_eq!(cpu.register.sp, 0xfffe);
}

#[test]
fn pop_af_keeps_the_low_nibble_of_f_zero() {
    // LD BC,0x12FF; PUSH BC; POP AF
    let mut cpu = cpu_with(&[0x01, 0xff, 0x12, 0xc5, 0xf1]);
    run(&mut cpu, 3);
    assert_eq!(cpu.register.a, 0x12);
    assert_eq!(cpu.register.f, 0xf0);
}

#[test]
fn push_wraps_below_zero() {
    // LD SP,0x0001; LD BC,0xABCD; PUSH BC
    let mut cpu = cpu_with(&[0x31, 0x01, 0x00, 0x01, 0xcd, 0xab, 0xc5, 0xd1]);
    run(&mut cpu, 3);
    assert_eq!(cpu.register.sp, 0xffff);
    assert_eq!(cpu.memory.read_8(0xffff), 0xcd);
    assert_eq!(cpu.memory.read_8(0x0000), 0xab);
    cpu.step();
    assert_eq!(cpu.register.get_rp(1), 0xabcd);
    assert_eq!(cpu.register.sp, 0x0001);
}

#[test]
fn load_through_a_into_b() {
    // LD A,(0x0150); LD B,A
    let mut cart = vec![0u8; 0x8000];
    cart[0x100] = 0xfa;
    cart[0x101] = 0x50;
    cart[0x102] = 0x01;
    cart[0x103] = 0x47;
    cart[0x150] = 0x5a;
    let mut cpu = CPU::new(cart);
    assert_eq!(cpu.step(), 16);
    assert_eq!(cpu.register.a, 0x5a);
    assert_eq!(cpu.step(), 4);
    assert_eq!(cpu.register.b, 0x5a);
}

#[test]
fn adc_counts_the_carry_in_both_flags() {
    // LD A,0x00; ADC A,0xFF with carry set
    let mut cpu = cpu_with(&[0x3e, 0x00, 0xce, 0xff]);
    run(&mut cpu, 2);
    assert_eq!(cpu.register.a, 0x00);
    assert_eq!(cpu.register.f, 0xb0);
    // LD A,0x0E; ADC A,0x01 with carry set: 0x10, half carry only
    let mut cpu = cpu_with(&[0x3e, 0x0e, 0xce, 0x01]);
    run(&mut cpu, 2);
    assert_eq!(cpu.register.a, 0x10);
    assert_eq!(cpu.register.f, 0x20);
    // CCF; LD A,0x0E; ADC A,0x01 with carry clear
    let mut cpu = cpu_with(&[0x3f, 0x3e, 0x0e, 0xce, 0x01]);
    run(&mut cpu, 3);
    assert_eq!(cpu.register.a, 0x0f);
    assert_eq!(cpu.register.f, 0x00);
}

#[test]
fn sbc_counts_the_carry_in_both_flags() {
    // LD A,0x00; SBC A,0xFF with carry set
    let mut cpu = cpu_with(&[0x3e, 0x00, 0xde, 0xff]);
    run(&mut cpu, 2);
    assert_eq!(cpu.register.a, 0x00);
    assert_eq!(cpu.register.f, 0xf0);
    // LD A,0x10; SBC A,0x00 with carry set: 0x0F, half borrow only
    let mut cpu = cpu_with(&[0x3e, 0x10, 0xde, 0x00]);
    run(&mut cpu, 2);
    assert_eq!(cpu.register.a, 0x0f);
    assert_eq!(cpu.register.f, 0x60);
    // CCF; LD A,0x10; SBC A,0x00 with carry clear
    let mut cpu = cpu_with(&[0x3f, 0x3e, 0x10, 0xde, 0x00]);
    run(&mut cpu, 3);
    assert_eq!(cpu.register.a, 0x10);
    assert_eq!(cpu.register.f, 0x40);
}

#[test]
fn sub_and_cp() {
    // LD A,0x10; SUB 0x20
    let mut cpu = cpu_with(&[0x3e, 0x10, 0xd6, 0x20]);
    run(&mut cpu, 2);
    assert_eq!(cpu.register.a, 0xf0);
    assert_eq!(cpu.register.f, 0x50);
    // LD A,0x10; CP 0x20: the same flags, A kept
    let mut cpu = cpu_with(&[0x3e, 0x10, 0xfe, 0x20]);
    run(&mut cpu, 2);
    assert_eq!(cpu.register.a, 0x10);
    assert_eq!(cpu.register.f, 0x50);
    // LD A,0x10; CP 0x10
    let mut cpu = cpu_with(&[0x3e, 0x10, 0xfe, 0x10]);
    run(&mut cpu, 2);
    assert_eq!(cpu.register.a, 0x10);
    assert_eq!(cpu.register.f, 0xc0);
    // LD A,0x10; CP 0x01: half borrow
    let mut cpu = cpu_with(&[0x3e, 0x10, 0xfe, 0x01]);
    run(&mut cpu, 2);
    assert_eq!(cpu.register.f, 0x60);
}

#[test]
fn and_xor_or() {
    // LD A,0xF0; AND 0x0F
    let mut cpu = cpu_with(&[0x3e, 0xf0, 0xe6, 0x0f]);
    assert_eq!(run(&mut cpu, 2), 16);
    assert_eq!(cpu.register.a, 0x00);
    assert_eq!(cpu.register.f, 0xa0);
    // LD A,0xF0; AND 0x3C
    let mut cpu = cpu_with(&[0x3e, 0xf0, 0xe6, 0x3c]);
    run(&mut cpu, 2);
    assert_eq!(cpu.register.a, 0x30);
    assert_eq!(cpu.register.f, 0x20);
    // LD A,0xF0; XOR 0x3C
    let mut cpu = cpu_with(&[0x3e, 0xf0, 0xee, 0x3c]);
    run(&mut cpu, 2);
    assert_eq!(cpu.register.a, 0xcc);
    assert_eq!(cpu.register.f, 0x00);
    // LD A,0xF0; OR 0x0F
    let mut cpu = cpu_with(&[0x3e, 0xf0, 0xf6, 0x0f]);
    run(&mut cpu, 2);
    assert_eq!(cpu.register.a, 0xff);
    assert_eq!(cpu.register.f, 0x00);
    // LD A,0x00; OR 0x00
    let mut cpu = cpu_with(&[0x3e, 0x00, 0xf6, 0x00]);
    run(&mut cpu, 2);
    assert_eq!(cpu.register.f, 0x80);
}

#[test]
fn alu_on_registers_and_through_hl() {
    // LD B,0x05; ADD A,B
    let mut cpu = cpu_with(&[0x06, 0x05, 0x80]);
    cpu.step();
    assert_eq!(cpu.step(), 4);
    assert_eq!(cpu.register.a, 0x06);
    assert_eq!(cpu.register.f, 0x00);
    // LD HL,0xC000; LD (HL),0x0F; ADD A,(HL)
    let mut cpu = cpu_with(&[0x21, 0x00, 0xc0, 0x36, 0x0f, 0x86]);
    run(&mut cpu, 2);
    assert_eq!(cpu.step(), 8);
    assert_eq!(cpu.register.a, 0x10);
    assert_eq!(cpu.register.f, 0x20);
}

#[test]
fn loads_between_registers() {
    // LD B,A; LD C,B; LD D,0x77; LD H,D; LD L,0x88; LD E,L; LD A,E
    let mut cpu = cpu_with(&[0x47, 0x48, 0x16, 0x77, 0x62, 0x2e, 0x88, 0x5d, 0x7b]);
    assert_eq!(cpu.step(), 4);
    assert_eq!(cpu.register.b, 0x01);
    assert_eq!(cpu.step(), 4);
    assert_eq!(cpu.register.c, 0x01);
    assert_eq!(cpu.step(), 8);
    assert_eq!(cpu.register.d, 0x77);
    assert_eq!(cpu.step(), 4);
    assert_eq!(cpu.register.h, 0x77);
    assert_eq!(cpu.step(), 8);
    assert_eq!(cpu.step(), 4);
    assert_eq!(cpu.register.e, 0x88);
    assert_eq!(cpu.step(), 4);
    assert_eq!(cpu.register.a, 0x88);
    assert_eq!(cpu.register.f, 0xb0);
}

#[test]
fn loads_through_hl() {
    // LD HL,0xC123; LD (HL),0x42; LD B,(HL); LD A,0x99; LD (HL),A
    let mut cpu = cpu_with(&[0x21, 0x23, 0xc1, 0x36, 0x42, 0x46, 0x3e, 0x99, 0x77]);
    assert_eq!(cpu.step(), 12);
    assert_eq!(cpu.step(), 12);
    assert_eq!(cpu.memory.read_8(0xc123), 0x42);
    assert_eq!(cpu.step(), 8);
    assert_eq!(cpu.register.b, 0x42);
    cpu.step();
    assert_eq!(cpu.step(), 8);
    assert_eq!(cpu.memory.read_8(0xc123), 0x99);
}

#[test]
fn loads_of_a_through_an_address() {
    // LD (0xC200),A; LD A,0x00; LD A,(0xC200)
    let mut cpu = cpu_with(&[0xea, 0x00, 0xc2, 0x3e, 0x00, 0xfa, 0x00, 0xc2]);
    assert_eq!(cpu.step(), 16);
    assert_eq!(cpu.memory.read_8(0xc200), 0x01);
    cpu.step();
    assert_eq!(cpu.step(), 16);
    assert_eq!(cpu.register.a, 0x01);
    assert_eq!(cpu.register.pc, 0x0108);
}

#[test]
fn loads_of_a_through_the_high_page() {
    // LDH (0x80),A; LD A,0x55; LD (C),A; LDH A,(0x80); LD A,(C)
    let mut cpu = cpu_with(&[0xe0, 0x80, 0x3e, 0x55, 0xe2, 0xf0, 0x80, 0xf2]);
    assert_eq!(cpu.step(), 12);
    assert_eq!(cpu.memory.read_8(0xff80), 0x01);
    cpu.step();
    assert_eq!(cpu.step(), 8);
    assert_eq!(cpu.memory.read_8(0xff13), 0x55);
    assert_eq!(cpu.step(), 12);
    assert_eq!(cpu.register.a, 0x01);
    assert_eq!(cpu.step(), 8);
    assert_eq!(cpu.register.a, 0x55);
}

#[test]
fn loads_of_a_through_pairs() {
    // LD BC,0xC000; LD DE,0xC001; LD HL,0xC002; LD (BC),A; LD (DE),A;
    // LD (HL+),A; LD (HL-),A; LD A,0x00; LD A,(HL-); LD A,(HL+); LD A,(BC); LD A,(DE)
    let mut cpu = cpu_with(&[0x01, 0x00, 0xc0, 0x11, 0x01, 0xc0, 0x21, 0x02, 0xc0, 0x02, 0x12, 0x22, 0x32,
        0x3e, 0x00, 0x3a, 0x2a, 0x0a, 0x1a]);
    run(&mut cpu, 3);
    cpu.register.a = 0x11;
    assert_eq!(cpu.step(), 8);
    assert_eq!(cpu.memory.read_8(0xc000), 0x11);
    cpu.register.a = 0x22;
    assert_eq!(cpu.step(), 8);
    assert_eq!(cpu.memory.read_8(0xc001), 0x22);
    cpu.register.a = 0x33;
    assert_eq!(cpu.step(), 8);
    assert_eq!(cpu.memory.read_8(0xc002), 0x33);
    assert_eq!(cpu.register.get_hl(), 0xc003);
    cpu.register.a = 0x44;
    assert_eq!(cpu.step(), 8);
    assert_eq!(cpu.memory.read_8(0xc003), 0x44);
    assert_eq!(cpu.register.get_hl(), 0xc002);
    cpu.step();
    assert_eq!(cpu.step(), 8);
    assert_eq!(cpu.register.a, 0x33);
    assert_eq!(cpu.register.get_hl(), 0xc001);
    assert_eq!(cpu.step(), 8);
    assert_eq!(cpu.register.a, 0x22);
    assert_eq!(cpu.register.get_hl(), 0xc002);
    assert_eq!(cpu.step(), 8);
    assert_eq!(cpu.register.a, 0x11);
    assert_eq!(cpu.step(), 8);
    assert_eq!(cpu.register.a, 0x22);
    assert_eq!(cpu.register.f, 0xb0);
}

#[test]
fn hl_wraps_in_post_increment_and_decrement() {
    // LD HL,0xFFFF; LD A,(HL+)
    let mut cpu = cpu_with(&[0x21, 0xff, 0xff, 0x2a]);
    run(&mut cpu, 2);
    assert_eq!(cpu.register.get_hl(), 0x0000);
    // LD HL,0x0000; LD A,(HL-)
    let mut cpu = cpu_with(&[0x21, 0x00, 0x00, 0x3a]);
    run(&mut cpu, 2);
    assert_eq!(cpu.register.get_hl(), 0xffff);
}

#[test]
fn word_loads() {
    // LD SP,0xD000; LD (0xC000),SP; LD HL,0xBEEF; LD SP,HL
    let mut cpu = cpu_with(&[0x31, 0x00, 0xd0, 0x08, 0x00, 0xc0, 0x21, 0xef, 0xbe, 0xf9]);
    assert_eq!(cpu.step(), 12);
    assert_eq!(cpu.register.sp, 0xd000);
    assert_eq!(cpu.step(), 20);
    assert_eq!(cpu.memory.read_8(0xc000), 0x00);
    assert_eq!(cpu.memory.read_8(0xc001), 0xd0);
    assert_eq!(cpu.step(), 12);
    assert_eq!(cpu.step(), 8);
    assert_eq!(cpu.register.sp, 0xbeef);
    assert_eq!(cpu.register.f, 0xb0);
}

#[test]
fn add_hl_rp() {
    // LD HL,0x0FFF; LD BC,0x0001; ADD HL,BC
    let mut cpu = cpu_with(&[0x21, 0xff, 0x0f, 0x01, 0x01, 0x00, 0x09]);
    run(&mut cpu, 2);
    assert_eq!(cpu.step(), 8);
    assert_eq!(cpu.register.get_hl(), 0x1000);
    assert_eq!(cpu.register.f, 0xa0);
    // LD HL,0xFFFF; LD DE,0x0001; ADD HL,DE
    let mut cpu = cpu_with(&[0x21, 0xff, 0xff, 0x11, 0x01, 0x00, 0x19]);
    run(&mut cpu, 3);
    assert_eq!(cpu.register.get_hl(), 0x0000);
    assert_eq!(cpu.register.f, 0xb0);
    // LD HL,0x8000; ADD HL,HL
    let mut cpu = cpu_with(&[0x21, 0x00, 0x80, 0x29]);
    run(&mut cpu, 2);
    assert_eq!(cpu.register.get_hl(), 0x0000);
    assert_eq!(cpu.register.f, 0x90);
    // XOR A; INC A; LD HL,0x0001; ADD HL,SP: Z stays clear
    let mut cpu = cpu_with(&[0xaf, 0x3c, 0x21, 0x01, 0x00, 0x39]);
    run(&mut cpu, 4);
    assert_eq!(cpu.register.get_hl(), 0xffff);
    assert_eq!(cpu.register.f, 0x00);
}

#[test]
fn inc_and_dec_of_pairs_touch_no_flag() {
    // DEC BC; INC DE; INC SP; INC SP; DEC HL
    let mut cpu = cpu_with(&[0x01, 0x00, 0x00, 0x0b, 0x13, 0x33, 0x33, 0x2b]);
    cpu.step();
    assert_eq!(cpu.step(), 8);
    assert_eq!(cpu.register.get_rp(0), 0xffff);
    assert_eq!(cpu.step(), 8);
    assert_eq!(cpu.register.get_rp(1), 0x00d9);
    run(&mut cpu, 2);
    assert_eq!(cpu.register.sp, 0x0000);
    cpu.step();
    assert_eq!(cpu.register.get_hl(), 0x014c);
    assert_eq!(cpu.register.f, 0xb0);
}

#[test]
fn inc_and_dec_of_registers() {
    // DEC B from 0
    let mut cpu = cpu_with(&[0x05]);
    assert_eq!(cpu.step(), 4);
    assert_eq!(cpu.register.b, 0xff);
    assert_eq!(cpu.register.f, 0x70);
    // LD A,0x0F; INC A
    let mut cpu = cpu_with(&[0x3e, 0x0f, 0x3c]);
    run(&mut cpu, 2);
    assert_eq!(cpu.register.a, 0x10);
    assert_eq!(cpu.register.f, 0x30);
    // LD A,0xFF; INC A
    let mut cpu = cpu_with(&[0x3e, 0xff, 0x3c]);
    run(&mut cpu, 2);
    assert_eq!(cpu.register.a, 0x00);
    assert_eq!(cpu.register.f, 0xb0);
    // DEC A from 1
    let mut cpu = cpu_with(&[0x3d]);
    cpu.step();
    assert_eq!(cpu.register.a, 0x00);
    assert_eq!(cpu.register.f, 0xd0);
    // CCF; LD L,0x10; DEC L
    let mut cpu = cpu_with(&[0x3f, 0x2e, 0x10, 0x2d]);
    run(&mut cpu, 3);
    assert_eq!(cpu.register.l, 0x0f);
    assert_eq!(cpu.register.f, 0x60);
    // LD HL,0xC000; DEC (HL)
    let mut cpu = cpu_with(&[0x21, 0x00, 0xc0, 0x35]);
    cpu.step();
    assert_eq!(cpu.step(), 12);
    assert_eq!(cpu.memory.read_8(0xc000), 0xff);
    assert_eq!(cpu.register.f, 0x70);
}

#[test]
fn cpl_scf_ccf() {
    // CPL
    let mut cpu = cpu_with(&[0x2f]);
    assert_eq!(cpu.step(), 4);
    assert_eq!(cpu.register.a, 0xfe);
    assert_eq!(cpu.register.f, 0xf0);
    // CCF; CCF; SCF
    let mut cpu = cpu_with(&[0x3f, 0x3f, 0x37]);
    assert_eq!(cpu.step(), 4);
    assert_eq!(cpu.register.f, 0x80);
    cpu.step();
    assert_eq!(cpu.register.f, 0x90);
    assert_eq!(cpu.step(), 4);
    assert_eq!(cpu.register.f, 0x90);
    // XOR A; INC A; SCF: Z stays clear, N and H are cleared
    let mut cpu = cpu_with(&[0xaf, 0x3c, 0x2f, 0x37]);
    run(&mut cpu, 3);
    assert_eq!(cpu.register.f, 0x60);
    cpu.step();
    assert_eq!(cpu.register.f, 0x10);
}

#[test]
fn absolute_jumps() {
    // JP 0x0200
    let mut cpu = cpu_with(&[0xc3, 0x00, 0x02]);
    assert_eq!(cpu.step(), 16);
    assert_eq!(cpu.register.pc, 0x0200);
    // JP NZ with Z set: not taken
    let mut cpu = cpu_with(&[0xc2, 0x00, 0x02]);
    assert_eq!(cpu.step(), 12);
    assert_eq!(cpu.register.pc, 0x0103);
    // JP Z with Z set: taken
    let mut cpu = cpu_with(&[0xca, 0x00, 0x02]);
    assert_eq!(cpu.step(), 16);
    assert_eq!(cpu.register.pc, 0x0200);
    // JP NC with C set: not taken
    let mut cpu = cpu_with(&[0xd2, 0x00, 0x02]);
    assert_eq!(cpu.step(), 12);
    assert_eq!(cpu.register.pc, 0x0103);
    // JP C with C set: taken
    let mut cpu = cpu_with(&[0xda, 0x00, 0x02]);
    assert_eq!(cpu.step(), 16);
    assert_eq!(cpu.register.pc, 0x0200);
    // JP (HL)
    let mut cpu = cpu_with(&[0xe9]);
    assert_eq!(cpu.step(), 4);
    assert_eq!(cpu.register.pc, 0x014d);
}

#[test]
fn conditional_relative_jumps() {
    // JR NZ with Z set: not taken
    let mut cpu = cpu_with(&[0x20, 0x10]);
    assert_eq!(cpu.step(), 8);
    assert_eq!(cpu.register.pc, 0x0102);
    // JR Z with Z set: taken
    let mut cpu = cpu_with(&[0x28, 0x10]);
    assert_eq!(cpu.step(), 12);
    assert_eq!(cpu.register.pc, 0x0112);
    // JR NC with C set: not taken
    let mut cpu = cpu_with(&[0x30, 0xf0]);
    assert_eq!(cpu.step(), 8);
    assert_eq!(cpu.register.pc, 0x0102);
    // JR C with C set: taken, backwards
    let mut cpu = cpu_with(&[0x38, 0xf0]);
    assert_eq!(cpu.step(), 12);
    assert_eq!(cpu.register.pc, 0x00f2);
}

#[test]
fn conditional_calls_and_returns() {
    // CALL NZ with Z set: not taken, the address is skipped
    let mut cpu = cpu_with(&[0xc4, 0x00, 0x02]);
    assert_eq!(cpu.step(), 12);
    assert_eq!(cpu.register.pc, 0x0103);
    assert_eq!(cpu.register.sp, 0xfffe);
    // CALL C with C set: taken
    let mut cpu = cpu_with(&[0xdc, 0x00, 0x02]);
    assert_eq!(cpu.step(), 24);
    assert_eq!(cpu.register.pc, 0x0200);
    assert_eq!(cpu.register.sp, 0xfffc);
    assert_eq!(cpu.memory.read_16(0xfffc), 0x0103);
    // LD BC,0x0300; PUSH BC; RET NC with C set; RET Z with Z set
    let mut cpu = cpu_with(&[0x01, 0x00, 0x03, 0xc5, 0xd0, 0xc8]);
    run(&mut cpu, 2);
    assert_eq!(cpu.step(), 8);
    assert_eq!(cpu.register.pc, 0x0105);
    assert_eq!(cpu.register.sp, 0xfffc);
    assert_eq!(cpu.step(), 20);
    assert_eq!(cpu.register.pc, 0x0300);
    assert_eq!(cpu.register.sp, 0xfffe);
}

#[test]
fn reti_sets_ime_at_once() {
    // LD BC,0x0300; PUSH BC; RETI
    let mut cpu = cpu_with(&[0x01, 0x00, 0x03, 0xc5, 0xd9]);
    cpu.interrupt.master = false;
    run(&mut cpu, 2);
    assert_eq!(cpu.step(), 16);
    assert_eq!(cpu.register.pc, 0x0300);
    assert_eq!(cpu.register.sp, 0xfffe);
    assert!(cpu.interrupt.master);
}

#[test]
fn rst_calls_a_fixed_address() {
    for (op, target) in [(0xc7u8, 0x00u16), (0xcf, 0x08), (0xd7, 0x10), (0xdf, 0x18), (0xe7, 0x20),
        (0xef, 0x28), (0xf7, 0x30), (0xff, 0x38)]
    {
        let mut cpu = cpu_with(&[op]);
        assert_eq!(cpu.step(), 16);
        assert_eq!(cpu.register.pc, target);
        assert_eq!(cpu.register.sp, 0xfffc);
        assert_eq!(cpu.memory.read_16(0xfffc), 0x0101);
    }
}

#[test]
fn rotations_and_shifts_of_the_second_table() {
    // (second opcode, value in B, carry before) -> (result, flags)
    let cases = [
        (0x00u8, 0x85u8, false, 0x0bu8, 0x10u8), // RLC
        (0x00, 0x00, true, 0x00, 0x80),
        (0x08, 0x01, false, 0x80, 0x10), // RRC
        (0x08, 0x02, true, 0x01, 0x00),
        (0x10, 0x80, false, 0x00, 0x90), // RL
        (0x10, 0x01, true, 0x03, 0x00),
        (0x18, 0x01, false, 0x00, 0x90), // RR
        (0x18, 0x02, true, 0x81, 0x00),
        (0x20, 0xc1, true, 0x82, 0x10), // SLA
        (0x20, 0x80, false, 0x00, 0x90),
        (0x28, 0x81, false, 0xc0, 0x10), // SRA
        (0x28, 0x7e, true, 0x3f, 0x00),
        (0x30, 0xa5, true, 0x5a, 0x00), // SWAP
        (0x30, 0x00, true, 0x00, 0x80),
        (0x38, 0x81, true, 0x40, 0x10), // SRL
        (0x38, 0x01, false, 0x00, 0x90),
    ];
    for (op, value, carry, result, flags) in cases {
        let mut cpu = cpu_with(&[0xcb, op]);
        cpu.register.b = value;
        cpu.register.f = if carry { 0x10 } else { 0x00 };
        assert_eq!(cpu.step(), 8);
        assert_eq!(cpu.register.b, result, "opcode {:#x} on {:#x}", op, value);
        assert_eq!(cpu.register.f, flags, "opcode {:#x} on {:#x}", op, value);
        assert_eq!(cpu.register.pc, 0x0102);
    }
}

#[test]
fn second_table_through_hl() {
    // LD HL,0xC000; LD (HL),0x81; RLC (HL); BIT 0,(HL); RES 0,(HL); SET 7,(HL)
    let mut cpu = cpu_with(&[0x21, 0x00, 0xc0, 0x36, 0x81, 0xcb, 0x06, 0xcb, 0x46, 0xcb, 0x86, 0xcb, 0xfe]);
    run(&mut cpu, 2);
    assert_eq!(cpu.step(), 16);
    assert_eq!(cpu.memory.read_8(0xc000), 0x03);
    assert_eq!(cpu.register.f, 0x10);
    assert_eq!(cpu.step(), 12);
    assert_eq!(cpu.register.f, 0x30);
    assert_eq!(cpu.step(), 16);
    assert_eq!(cpu.memory.read_8(0xc000), 0x02);
    assert_eq!(cpu.step(), 16);
    assert_eq!(cpu.memory.read_8(0xc000), 0x82);
    assert_eq!(cpu.register.f, 0x30);
}

#[test]
fn bit_res_set_on_registers() {
    // BIT 0,A with A = 1; BIT 1,A; RES 0,A; SET 7,A; SET 3,E; RES 4,E
    let mut cpu = cpu_with(&[0xcb, 0x47, 0xcb, 0x4f, 0xcb, 0x87, 0xcb, 0xff, 0xcb, 0xdb, 0xcb, 0xa3]);
    assert_eq!(cpu.step(), 8);
    assert_eq!(cpu.register.f, 0x30);
    assert_eq!(cpu.step(), 8);
    assert_eq!(cpu.register.f, 0xb0);
    assert_eq!(cpu.step(), 8);
    assert_eq!(cpu.register.a, 0x00);
    assert_eq!(cpu.step(), 8);
    assert_eq!(cpu.register.a, 0x80);
    assert_eq!(cpu.step(), 8);
    assert_eq!(cpu.register.e, 0xd8);
    assert_eq!(cpu.step(), 8);
    assert_eq!(cpu.register.e, 0xc8);
    assert_eq!(cpu.register.f, 0xb0);
}

#[test]
fn unsupported_opcodes_cannot_be_stepped() {
    for op in [0x10u8, 0xd3, 0xdb, 0xdd, 0xe3, 0xe4, 0xeb, 0xec, 0xed, 0xf4, 0xfc, 0xfd] {
        let cpu = cpu_with(&[op]);
        assert!(!cpu.can_step(), "opcode {:#x}", op);
    }
    for op in [0x00u8, 0x76, 0xcb, 0xff, 0xc3] {
        let cpu = cpu_with(&[op]);
        assert!(cpu.can_step(), "opcode {:#x}", op);
    }
}

#[test]
fn an_unsupported_opcode_is_no_obstacle_while_halted_or_interrupted() {
    let mut cpu = cpu_with(&[0xd3]);
    cpu.halted = true;
    assert!(cpu.can_step());
    assert_eq!(cpu.step(), 4);
    assert_eq!(cpu.register.pc, 0x0100);
    let mut cpu = cpu_with(&[0xd3]);
    cpu.memory.write_8(0xffff, 0x08);
    cpu.memory.write_8(0xff0f, 0x08);
    assert!(cpu.can_step());
    assert_eq!(cpu.step(), 16);
    assert_eq!(cpu.register.pc, 0x0058);
    // With IME clear the source only ends a halt, and the opcode is met.
    let mut cpu = cpu_with(&[0xd3]);
    cpu.interrupt.master = false;
    cpu.halted = true;
    cpu.memory.write_8(0xffff, 0x08);
    cpu.memory.write_8(0xff0f, 0x08);
    assert!(!cpu.can_step());
}

#[test]
fn every_supported_opcode_decodes_to_an_instruction() {
    let unsupported = [0x10u8, 0xd3, 0xdb, 0xdd, 0xe3, 0xe4, 0xeb, 0xec, 0xed, 0xf4, 0xfc, 0xfd];
    for op in 0..=255u8 {
        if op == 0xcb {
            continue;
        }
        let mut cpu = cpu_with(&[0x00, 0x34, 0x12]);
        cpu.register.pc = 0x0101;
        let decoded = cpu.decode(op);
        assert_eq!(decoded.is_none(), unsupported.contains(&op), "opcode {:#x}", op);
        assert!(cpu.register.pc >= 0x0101 && cpu.register.pc <= 0x0103);
    }
}

#[test]
fn decode_reads_the_operands() {
    let mut cpu = cpu_with(&[0x00, 0x34, 0x12]);
    cpu.register.pc = 0x0101;
    assert_eq!(cpu.decode(0x3e), Some(Instr::LdRN { r: 7, n: 0x34 }));
    assert_eq!(cpu.register.pc, 0x0102);
    cpu.register.pc = 0x0101;
    assert_eq!(cpu.decode(0xcd), Some(Instr::Call { nn: 0x1234 }));
    assert_eq!(cpu.register.pc, 0x0103);
    cpu.register.pc = 0x0101;
    assert_eq!(cpu.decode(0x76), Some(Instr::Halt));
    assert_eq!(cpu.decode(0x70), Some(Instr::LdRR { dst: 6, src: 0 }));
    assert_eq!(cpu.decode(0x09), Some(Instr::AddHlRp { p: 0 }));
    assert_eq!(cpu.decode(0x39), Some(Instr::AddHlRp { p: 3 }));
    assert_eq!(cpu.decode(0xf1), Some(Instr::Pop { p: 3 }));
    assert_eq!(cpu.decode(0xe5), Some(Instr::Push { p: 2 }));
    assert_eq!(cpu.decode(0xbf), Some(Instr::AluR { op: 7, r: 7 }));
    assert_eq!(cpu.decode(0x1f), Some(Instr::RotA { op: 3 }));
    assert_eq!(cpu.decode(0xd9), Some(Instr::Reti));
    assert_eq!(cpu.decode(0xf9), Some(Instr::LdSpHl));
    assert_eq!(cpu.decode(0xe2), Some(Instr::LdCA));
    assert_eq!(cpu.decode(0xf2), Some(Instr::LdAC));
    assert_eq!(cpu.decode(0xf3), Some(Instr::Di));
    assert_eq!(cpu.decode(0xfb), Some(Instr::Ei));
    assert_eq!(cpu.register.pc, 0x0101);
    assert_eq!(cpu.decode(0x38), Some(Instr::JrCc { cc: 3, d: 0x34 }));
    cpu.register.pc = 0x0101;
    assert_eq!(cpu.decode(0xf8), Some(Instr::LdHlSpD { d: 0x34 }));
    cpu.register.pc = 0x0101;
    assert_eq!(cpu.decode(0x08), Some(Instr::LdMemSp { nn: 0x1234 }));
}

#[test]
fn execute_and_exec_alt_take_an_instruction_directly() {
    let mut cpu = cpu_with(&[]);
    assert_eq!(cpu.execute(Instr::LdRN { r: 0, n: 0x42 }), 8);
    assert_eq!(cpu.register.b, 0x42);
    assert_eq!(cpu.execute(Instr::Jp { nn: 0x4000 }), 16);
    assert_eq!(cpu.register.pc, 0x4000);
    assert_eq!(cpu.exec_alt(0x30), 8);
    assert_eq!(cpu.register.b, 0x24);
    assert_eq!(cpu.exec_alt(0xc6), 16);
    assert_eq!(cpu.memory.read_8(0x014d), 0x01);
    assert_eq!(cpu.exec_alt(0x46), 12);
}

#[test]
fn exec_runs_the_instruction_at_the_program_counter() {
    let mut cpu = cpu_with(&[0x3e, 0x77, 0xcb, 0x37]);
    assert_eq!(cpu.exec(), 8);
    assert_eq!(cpu.register.a, 0x77);
    assert_eq!(cpu.exec(), 8);
    assert_eq!(cpu.register.a, 0x77);
    assert_eq!(cpu.register.pc, 0x0104);
}

#[test]
fn operand_helpers() {
    let mut cpu = cpu_with(&[0x11, 0x22, 0x33]);
    assert_eq!(cpu.read_immediate_8(), 0x11);
    assert_eq!(cpu.register.pc, 0x0101);
    assert_eq!(cpu.read_immediate_16(), 0x3322);
    assert_eq!(cpu.register.pc, 0x0103);
    cpu.register.pc = 0xffff;
    cpu.memory.write_8(0xffff, 0x9a);
    assert_eq!(cpu.read_immediate_8(), 0x9a);
    assert_eq!(cpu.register.pc, 0x0000);
    cpu.stack_push(0xbeef);
    assert_eq!(cpu.register.sp, 0xfffc);
    assert_eq!(cpu.stack_pop(), 0xbeef);
    assert_eq!(cpu.register.sp, 0xfffe);
}

#[test]
fn register_operands_by_index() {
    let mut cpu = cpu_with(&[]);
    for i in 0..8u8 {
        let cycles = cpu.set_register(i, 0x10 + i);
        assert_eq!(cycles, if i == 6 { 12 } else { 4 });
    }
    assert_eq!(cpu.register.b, 0x10);
    assert_eq!(cpu.register.c, 0x11);
    assert_eq!(cpu.register.d, 0x12);
    assert_eq!(cpu.register.e, 0x13);
    assert_eq!(cpu.register.h, 0x14);
    assert_eq!(cpu.register.l, 0x15);
    assert_eq!(cpu.memory.read_8(0x1415), 0x16);
    assert_eq!(cpu.register.a, 0x17);
    for i in 0..8u8 {
        assert_eq!(cpu.get_register(i), 0x10 + i);
    }
    assert!(cpu.get_bit_from_register(7, 0));
    assert!(!cpu.get_bit_from_register(7, 3));
    cpu.set_bit_from_register(7, 3, true);
    assert_eq!(cpu.register.a, 0x1f);
    cpu.set_bit_from_register(7, 0, false);
    assert_eq!(cpu.register.a, 0x1e);
}

#[test]
fn carry_and_borrow_predicates() {
    assert!(CPU::is_carry_from_bit(3, 0x0f, 0x01, false));
    assert!(!CPU::is_carry_from_bit(3, 0x0e, 0x01, false));
    assert!(CPU::is_carry_from_bit(3, 0x0e, 0x01, true));
    assert!(CPU::is_carry_from_bit(3, 0x00, 0x0f, true));
    assert!(!CPU::is_carry_from_bit(3, 0xf0, 0xf0, false));
    assert!(CPU::is_carry_from_bit(7, 0xf0, 0xf0, false));
    assert!(CPU::is_carry_from_bit(7, 0xff, 0x00, true));
    assert!(!CPU::is_carry_from_bit(7, 0xfe, 0x00, true));
    assert!(CPU::is_carry_from_bit(0, 0x01, 0x01, false));
    assert!(CPU::is_carry_from_bit_16(11, 0x0fff, 0x0001));
    assert!(!CPU::is_carry_from_bit_16(11, 0x0ffe, 0x0001));
    assert!(CPU::is_carry_from_bit_16(15, 0xffff, 0x0001));
    assert!(!CPU::is_carry_from_bit_16(15, 0xfffe, 0x0001));
    assert!(CPU::is_no_borrow_from_bit(4, 0x10, 0x01, false));
    assert!(!CPU::is_no_borrow_from_bit(4, 0x11, 0x01, false));
    assert!(CPU::is_no_borrow_from_bit(4, 0x11, 0x01, true));
    assert!(CPU::is_no_borrow_from_bit(8, 0x10, 0x20, false));
    assert!(!CPU::is_no_borrow_from_bit(8, 0x20, 0x20, false));
    assert!(CPU::is_no_borrow_from_bit(8, 0x20, 0x20, true));
    assert!(CPU::is_no_borrow_from_bit(8, 0x00, 0xff, true));
    assert!(!CPU::is_no_borrow_from_bit(0, 0x00, 0xff, false));
    assert!(CPU::is_result_zero(0));
    assert!(!CPU::is_result_zero(1));
}

#[test]
fn address_arithmetic_wraps() {
    assert_eq!(CPU::displace(0x0100, 0x7f), 0x017f);
    assert_eq!(CPU::displace(0x0100, 0x80), 0x0080);
    assert_eq!(CPU::displace(0x0000, 0xff), 0xffff);
    assert_eq!(CPU::displace(0xffff, 0x01), 0x0000);
    assert_eq!(CPU::successor(0xffff), 0x0000);
    assert_eq!(CPU::predecessor(0x0000), 0xffff);
    assert_eq!(CPU::successor(0x1234), 0x1235);
}

#[test]
fn conditions_by_index() {
    let mut cpu = cpu_with(&[]);
    cpu.register.f = 0x80;
    assert!(!cpu.jump_condition_check(0));
    assert!(cpu.jump_condition_check(1));
    assert!(cpu.jump_condition_check(2));
    assert!(!cpu.jump_condition_check(3));
    cpu.register.f = 0x10;
    assert!(cpu.jump_condition_check(0));
    assert!(!cpu.jump_condition_check(1));
    assert!(!cpu.jump_condition_check(2));
    assert!(cpu.jump_condition_check(3));
}

#[test]
fn alu_and_rot_work_on_the_accumulator() {
    let mut cpu = cpu_with(&[]);
    cpu.register.a = 0x3a;
    cpu.alu(0, 0xc6);
    assert_eq!(cpu.register.a, 0x00);
    assert_eq!(cpu.register.f, 0xb0);
    cpu.register.a = 0x85;
    assert_eq!(cpu.rot(0, 7), 4);
    assert_eq!(cpu.register.a, 0x0b);
    assert_eq!(cpu.register.f, 0x10);
    cpu.register.set_hl(0xc000);
    cpu.memory.write_8(0xc000, 0x80);
    assert_eq!(cpu.rot(4, 6), 12);
    assert_eq!(cpu.memory.read_8(0xc000), 0x00);
    assert_eq!(cpu.register.f, 0x90);
}

#[test]
fn interrupt_step_alone() {
    let mut cpu = cpu_with(&[]);
    assert_eq!(cpu.interrupt_step(), 0);
    assert_eq!(cpu.register.pc, 0x0100);
    cpu.memory.write_8(0xffff, 0x02);
    cpu.memory.write_8(0xff0f, 0x03);
    assert_eq!(cpu.interrupt_step(), 16);
    assert_eq!(cpu.register.pc, 0x0048);
    assert_eq!(cpu.memory.read_8(0xff0f), 0x01);
    assert_eq!(cpu.memory.read_16(0xfffc), 0x0100);
    assert_eq!(cpu.interrupt_step(), 0);
}

#[test]
fn run_steps_until_the_budget_is_spent() {
    // JR -2 for ever: 12 cycles a step.
    let mut cpu = cpu_with(&[0x18, 0xfe]);
    assert_eq!(cpu.run(0), 0);
    assert_eq!(cpu.register.pc, 0x0100);
    assert_eq!(cpu.run(1), 12);
    assert_eq!(cpu.run(12), 12);
    assert_eq!(cpu.run(13), 24);
    assert_eq!(cpu.run(70224), 70224);
    assert_eq!(cpu.register.pc, 0x0100);
    // The divider has seen every cycle: 12 + 12 + 24 + 70224 = 70272 = 274 * 256 + 128.
    assert_eq!(cpu.memory.read_8(0xff04), 18);
}

#[test]
fn run_stops_before_an_unsupported_opcode() {
    // NOP; NOP; an undefined opcode
    let mut cpu = cpu_with(&[0x00, 0x00, 0xdd]);
    assert_eq!(cpu.run(1000), 8);
    assert_eq!(cpu.register.pc, 0x0102);
    assert!(!cpu.can_step());
    assert_eq!(cpu.run(1000), 0);
}

#[test]
fn run_lets_the_timer_interrupt_the_program() {
    // JR -2 with the timer at its fastest and about to overflow.
    let mut cpu = cpu_with(&[0x18, 0xfe]);
    cpu.memory.write_8(0xffff, 0x04);
    cpu.memory.write_8(0xff07, 0x05);
    cpu.memory.write_8(0xff05, 0xff);
    // The first step takes 12 cycles, the second brings the overflow, and
    // the third services it.
    assert_eq!(cpu.run(25), 40);
    assert_eq!(cpu.register.pc, 0x0050);
    assert!(!cpu.interrupt.master);
    assert_eq!(cpu.memory.read_16(0xfffc), 0x0100);
}
