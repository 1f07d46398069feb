//! The processor: registers, memory, interrupt controller and the halt flag,
//! driven one step at a time. Every operation is proved to do what the
//! machine description in `machine` says.

use vstd::prelude::*;
use vstd::arithmetic::power2::{lemma2_to64, lemma_pow2_pos, lemma_pow2_strictly_increases};
use vstd::bits::{lemma_u16_shl_is_mul, lemma_u32_shl_is_mul};
use crate::alu::{
    advanced, alu_of, borrows_from_bit, carries_from_bit, carry_in, daa_value, displaced,
    lemma_advanced_twice, lemma_carry_bits, lemma_left_bits, lemma_nibble, lemma_right_bits,
    lemma_swap_bits, lemma_wrap_byte, rot_of,
};
use crate::instruction::{
    decode_alt, decode_alt_op, decode_primary, fields, is_supported, lemma_decode_supported, Instr,
    PREFIX,
};
use crate::interrupt::Interrupt;
use crate::machine::{lemma_step_cycles, lemma_step_wf, CpuView};
use crate::memory::{Memory, CART_SIZE, IE_ADDR, IF_ADDR};
use crate::register::{lemma_flags_byte, Flags, Register};
use crate::utils::{bit_of, bit_weight, join_8_to_16_lsf, lemma_bit_weight, lemma_single_bit};

verus! {

pub struct CPU {
    pub register: Register,
    pub memory: Memory,
    pub interrupt: Interrupt,
    pub halted: bool,
}

impl CPU {
    pub open spec fn view(&self) -> CpuView {
        CpuView {
            register: self.register,
            memory: self.memory@,
            interrupt: self.interrupt,
            halted: self.halted,
        }
    }

    /// The low nibble of F is zero and the memory is well-formed.
    pub open spec fn wf(&self) -> bool {
        self.register.wf() && self.memory.wf()
    }

    /// A processor after reset around the cartridge image `cart`, which
    /// holds at least 32 KiB.
    pub fn new(cart: Vec<u8>) -> (cpu: CPU)
        requires
            cart.len() >= CART_SIZE,
        ensures
            cpu.wf(),
            cpu@ == CpuView::initial(cart@),
    {
        CPU {
            register: Register::new(),
            memory: Memory::new(cart),
            interrupt: Interrupt::new(),
            halted: false,
        }
    }

    /// The state of a well-formed processor is a well-formed state of the
    /// machine, so that what holds of those holds of it.
    pub proof fn lemma_view_wf(&self)
        requires
            self.wf(),
        ensures
            self@.wf(),
    {
        self.memory.lemma_view_wf();
    }

    /// Reads the byte at the program counter and moves the program counter
    /// past it.
    pub fn read_immediate_8(&mut self) -> (op: u8)
        requires
            old(self).wf(),
        ensures
            final(self).wf(),
            op == old(self)@.opcode(),
            final(self)@ == old(self)@.with_pc(advanced(old(self).register.pc, 1)),
    {
        let op = self.memory.read_8(self.register.pc as usize);
        self.register.pc = self.register.pc.wrapping_add(1);
        op
    }

    /// Reads the little-endian word at the program counter and moves the
    /// program counter past it.
    pub fn read_immediate_16(&mut self) -> (nn: u16)
        requires
            old(self).wf(),
        ensures
            final(self).wf(),
            nn == old(self)@.memory.read_16(old(self).register.pc as int),
            final(self)@ == old(self)@.with_pc(advanced(old(self).register.pc, 2)),
    {
        let low = self.read_immediate_8();
        let high = self.read_immediate_8();
        join_8_to_16_lsf(low, high)
    }

    pub fn stack_push(&mut self, n: u16)
        requires
            old(self).wf(),
        ensures
            final(self).wf(),
            final(self)@ == old(self)@.push(n),
    {
        self.register.sp = self.register.sp.wrapping_sub(2);
        self.memory.write_16(self.register.sp as usize, n);
    }

    pub fn stack_pop(&mut self) -> (n: u16)
        requires
            old(self).wf(),
        ensures
            final(self).wf(),
            n == old(self)@.top(),
            final(self)@ == old(self)@.popped(),
    {
        let n = self.memory.read_16(self.register.sp as usize);
        self.register.sp = self.register.sp.wrapping_add(2);
        n
    }

    /// The 8-bit operand with index `i`; index 6 is the byte at HL.
    pub fn get_register(&self, i: u8) -> (n: u8)
        requires
            self.wf(),
            i < 8,
        ensures
            n == self@.read_r(i),
    {
        match i {
            0 => self.register.b,
            1 => self.register.c,
            2 => self.register.d,
            3 => self.register.e,
            4 => self.register.h,
            5 => self.register.l,
            6 => self.memory.read_8(self.register.get_hl() as usize),
            _ => self.register.a,
        }
    }

    /// Writes the 8-bit operand with index `i`, and returns the cycles that
    /// an instruction takes which reads the operand, changes it and writes
    /// it back: 12 through HL, else 4.
    pub fn set_register(&mut self, i: u8, n: u8) -> (cycles: usize)
        requires
            old(self).wf(),
            i < 8,
        ensures
            final(self).wf(),
            final(self)@ == old(self)@.write_r(i, n),
            cycles == (if i == 6 { 12int } else { 4 }),
    {
        match i {
            0 => self.register.b = n,
            1 => self.register.c = n,
            2 => self.register.d = n,
            3 => self.register.e = n,
            4 => self.register.h = n,
            5 => self.register.l = n,
            6 => self.memory.write_8(self.register.get_hl() as usize, n),
            _ => self.register.a = n,
        }

        if i == 6 {
            12
        } else {
            4
        }
    }

    /// Whether bit `bit` of the 8-bit operand with index `register` is set.
    pub fn get_bit_from_register(&self, register: u8, bit: u8) -> (b: bool)
        requires
            self.wf(),
            register < 8,
            bit < 8,
        ensures
            b == bit_of(self@.read_r(register), bit_weight(bit)),
    {
        let r = self.get_register(register);
        let mask = 1u8 << bit;
        proof {
            lemma_bit_weight(bit);
            lemma_single_bit(r, mask);
        }
        let b = r & mask;
        b != 0
    }

    /// Sets or clears bit `bit` of the 8-bit operand with index `register`.
    pub fn set_bit_from_register(&mut self, register: u8, bit: u8, value: bool)
        requires
            old(self).wf(),
            register < 8,
            bit < 8,
        ensures
            final(self).wf(),
            final(self)@ == (if value {
                old(self)@.set_bit(bit, register)
            } else {
                old(self)@.reset_bit(bit, register)
            }),
    {
        let mut r = self.get_register(register);
        let mask = 1u8 << bit;
        proof {
            lemma_bit_weight(bit);
            lemma_single_bit(r, mask);
        }
        if value {
            r |= mask
        } else {
            r &= !mask
        }
        self.set_register(register, r);
    }

    pub fn is_result_zero(n: u8) -> (b: bool)
        ensures
            b == (n == 0),
    {
        n == 0
    }

    /// Whether the sum of `op1`, `op2` and the carry-in carries out of bit
    /// `bit`.
    pub fn is_carry_from_bit(bit: u8, op1: u8, op2: u8, carry: bool) -> (b: bool)
        requires
            bit < 8,
        ensures
            b == carries_from_bit(bit, op1 as int, op2 as int, carry),
    {
        proof {
            reveal(carries_from_bit);
            lemma2_to64();
            if bit < 7 {
                lemma_pow2_strictly_increases((bit + 1) as nat, 8);
            }
            lemma_pow2_pos((bit + 1) as nat);
            lemma_u16_shl_is_mul(1, (bit + 1) as u16);
        }
        let m: u16 = 1u16 << ((bit + 1) as u16);
        (op1 as u16 % m) + (op2 as u16 % m) + (if carry { 1 } else { 0 }) >= m
    }

    /// Whether the sum of `op1` and `op2` carries out of bit `bit`.
    pub fn is_carry_from_bit_16(bit: u8, op1: u16, op2: u16) -> (b: bool)
        requires
            bit < 16,
        ensures
            b == carries_from_bit(bit, op1 as int, op2 as int, false),
    {
        proof {
            reveal(carries_from_bit);
            lemma2_to64();
            if bit < 15 {
                lemma_pow2_strictly_increases((bit + 1) as nat, 16);
            }
            lemma_pow2_pos((bit + 1) as nat);
            lemma_u32_shl_is_mul(1, (bit + 1) as u32);
        }
        let m: u32 = 1u32 << ((bit + 1) as u32);
        (op1 as u32 % m) + (op2 as u32 % m) >= m
    }

    /// Whether taking `op2` and the carry-in from `op1` borrows from bit
    /// `bit`: true where a borrow is needed.
    pub fn is_no_borrow_from_bit(bit: u8, op1: u8, op2: u8, carry: bool) -> (b: bool)
        requires
            bit <= 8,
        ensures
            b == borrows_from_bit(bit, op1 as int, op2 as int, carry),
    {
        proof {
            reveal(borrows_from_bit);
            lemma2_to64();
            if bit < 8 {
                lemma_pow2_strictly_increases(bit as nat, 8);
            }
            lemma_pow2_pos(bit as nat);
            lemma_u16_shl_is_mul(1, bit as u16);
        }
        let m: u16 = 1u16 << (bit as u16);
        (op1 as u16 % m) < (op2 as u16 % m) + (if carry { 1 } else { 0 })
    }

    /// Whether the condition with index `y` of NZ, Z, NC, C holds.
    pub fn jump_condition_check(&self, y: u8) -> (b: bool)
        requires
            y < 4,
        ensures
            b == self@.condition(y),
    {
        match y {
            0 => self.register.get_bit(Flags::Zero) == false,
            1 => self.register.get_bit(Flags::Zero) == true,
            2 => self.register.get_bit(Flags::Carry) == false,
            _ => self.register.get_bit(Flags::Carry) == true,
        }
    }

    /// The word after `n`; after 0xFFFF comes 0.
    pub fn successor(n: u16) -> (r: u16)
        ensures
            r == advanced(n, 1),
    {
        n.wrapping_add(1)
    }

    /// The word before `n`; before 0 comes 0xFFFF.
    pub fn predecessor(n: u16) -> (r: u16)
        ensures
            r == advanced(n, -1),
    {
        n.wrapping_sub(1)
    }

    /// The address `d`, read as a signed offset, away from `base`.
    pub fn displace(base: u16, d: u8) -> (r: u16)
        ensures
            r == displaced(base, d),
    {
        if d < 0x80 {
            base.wrapping_add(d as u16)
        } else {
            base.wrapping_sub(0x100 - d as u16)
        }
    }

    /// Adds `n` and the carry-in to `a`: the sum, the carry out of bit 3 and
    /// the carry out of bit 7.
    fn add_with_carry(a: u8, n: u8, carry: bool) -> (r: (u8, bool, bool))
        ensures
            r.0 == ((a + n + carry_in(carry)) % 256) as u8,
            r.1 == (a % 16 + n % 16 + carry_in(carry) > 15),
            r.2 == (a + n + carry_in(carry) > 255),
    {
        let carry_flag: u8 = if carry { 1 } else { 0 };
        let sum = a.wrapping_add(n).wrapping_add(carry_flag);
        assert(sum == (a + n + carry_in(carry)) % 256) by {
            lemma_wrap_byte(a + n + carry_in(carry));
        }
        let half = CPU::is_carry_from_bit(3, a, n, carry);
        let full = CPU::is_carry_from_bit(7, a, n, carry);
        assert(half == (a % 16 + n % 16 + carry_in(carry) > 15) && full == (a + n + carry_in(carry) > 255)) by {
            lemma_carry_bits(a as int, n as int, carry);
        }
        (sum, half, full)
    }

    /// Takes `n` and the carry-in from `a`: the difference, the borrow from
    /// bit 4 and the borrow from bit 8.
    fn sub_with_borrow(a: u8, n: u8, carry: bool) -> (r: (u8, bool, bool))
        ensures
            r.0 == ((a - n - carry_in(carry)) % 256) as u8,
            r.1 == (a % 16 < n % 16 + carry_in(carry)),
            r.2 == (a < n + carry_in(carry)),
    {
        let carry_flag: u8 = if carry { 1 } else { 0 };
        let difference = a.wrapping_sub(n).wrapping_sub(carry_flag);
        assert(difference == (a - n - carry_in(carry)) % 256) by {
            lemma_wrap_byte(a - n - carry_in(carry));
        }
        let half = CPU::is_no_borrow_from_bit(4, a, n, carry);
        let full = CPU::is_no_borrow_from_bit(8, a, n, carry);
        assert(half == (a % 16 < n % 16 + carry_in(carry)) && full == (a < n + carry_in(carry))) by {
            lemma_carry_bits(a as int, n as int, carry);
        }
        (difference, half, full)
    }

    /// Performs ALU operation `y` of ADD, ADC, SUB, SBC, AND, XOR, OR, CP on
    /// A and `n`.
    pub fn alu(&mut self, y: u8, n: u8)
        requires
            old(self).wf(),
            y < 8,
        ensures
            final(self).wf(),
            final(self)@ == old(self)@.alu(y, n),
        decreases y,
    {
        let a = self.register.a;
        let carry = self.register.get_carry_flag();
        proof {
            reveal(alu_of);
        }

        match y {
            0 => {
                let (sum, half, full) = CPU::add_with_carry(a, n, false);
                self.register.a = sum;
                self.register.set_flags(CPU::is_result_zero(sum), false, half, full);
            },
            1 => {
                let (sum, half, full) = CPU::add_with_carry(a, n, carry);
                self.register.a = sum;
                self.register.set_flags(CPU::is_result_zero(sum), false, half, full);
            },
            2 => {
                let (difference, half, full) = CPU::sub_with_borrow(a, n, false);
                self.register.a = difference;
                self.register.set_flags(CPU::is_result_zero(difference), true, half, full);
            },
            3 => {
                let (difference, half, full) = CPU::sub_with_borrow(a, n, carry);
                self.register.a = difference;
                self.register.set_flags(CPU::is_result_zero(difference), true, half, full);
            },
            4 => {
                self.register.a = a & n;
                self.register.set_flags(CPU::is_result_zero(self.register.a), false, true, false);
            },
            5 => {
                self.register.a = a ^ n;
                self.register.set_flags(CPU::is_result_zero(self.register.a), false, false, false);
            },
            6 => {
                self.register.a = a | n;
                self.register.set_flags(CPU::is_result_zero(self.register.a), false, false, false);
            },
            _ => {
                self.alu(2, n);
                self.register.a = a
            },
        }
    }

    /// Performs rotation or shift `y` of RLC, RRC, RL, RR, SLA, SRA, SWAP,
    /// SRL on the operand with index `z`, sets Z by the result, and returns
    /// the cycles of the write: 12 through HL, else 4.
    pub fn rot(&mut self, y: u8, z: u8) -> (cycles: usize)
        requires
            old(self).wf(),
            y < 8,
            z < 8,
        ensures
            final(self).wf(),
            final(self)@ == old(self)@.rot(y, z),
            cycles == (if z == 6 { 12int } else { 4 }),
    {
        let n = self.get_register(z);
        let c: u8 = if self.register.get_carry_flag() { 1 } else { 0 };
        proof {
            reveal(rot_of);
            lemma_left_bits(n, c);
            lemma_right_bits(n, c);
            lemma_swap_bits(n);
        }

        let (carry, result) = match y {
            0 => ((n & 0x80u8) != 0u8, (n << 1u8) | (n >> 7u8)),
            1 => ((n & 0x01u8) != 0u8, (n >> 1u8) | ((n & 0x01u8) << 7u8)),
            2 => ((n & 0x80u8) != 0u8, (n << 1u8) | c),
            3 => ((n & 0x01u8) != 0u8, (n >> 1u8) | (c << 7u8)),
            4 => ((n & 0x80u8) != 0u8, n << 1u8),
            5 => ((n & 0x01u8) != 0u8, (n >> 1u8) | (0x80u8 & n)),
            6 => (false, (n << 4u8) | (n >> 4u8)),
            _ => ((n & 0x01u8) != 0u8, (n >> 1u8) & !0x80u8),
        };

        let cycles = self.set_register(z, result);
        self.register.set_flags(CPU::is_result_zero(result), false, false, carry);
        cycles
    }

    /// INC r
    fn inc(&mut self, r: u8)
        requires
            old(self).wf(),
            r < 8,
        ensures
            final(self).wf(),
            final(self)@ == old(self)@.inc_r(r),
    {
        let n = self.get_register(r);
        let carry = self.register.get_carry_flag();
        let result = n.wrapping_add(1);
        self.set_register(r, result);
        proof {
            lemma_carry_bits(n as int, 1, false);
        }
        let half = CPU::is_carry_from_bit(3, n, 1, false);
        self.register.set_flags(CPU::is_result_zero(result), false, half, carry);
    }

    /// DEC r
    fn dec(&mut self, r: u8)
        requires
            old(self).wf(),
            r < 8,
        ensures
            final(self).wf(),
            final(self)@ == old(self)@.dec_r(r),
    {
        let n = self.get_register(r);
        let carry = self.register.get_carry_flag();
        let result = n.wrapping_sub(1);
        self.set_register(r, result);
        proof {
            lemma_carry_bits(n as int, 1, false);
        }
        let half = CPU::is_no_borrow_from_bit(4, n, 1, false);
        self.register.set_flags(CPU::is_result_zero(result), true, half, carry);
    }

    /// Adds two words: the sum, the carry out of bit 11 and the carry out of
    /// bit 15.
    fn add_words(op1: u16, op2: u16) -> (r: (u16, bool, bool))
        ensures
            r.0 == advanced(op1, op2 as int),
            r.1 == (op1 % 4096 + op2 % 4096 > 4095),
            r.2 == (op1 + op2 > 65535),
    {
        proof {
            lemma_carry_bits(op1 as int, op2 as int, false);
        }
        (
            op1.wrapping_add(op2),
            CPU::is_carry_from_bit_16(11, op1, op2),
            CPU::is_carry_from_bit_16(15, op1, op2),
        )
    }

    /// ADD HL,rp
    fn add_hl(&mut self, p: u8)
        requires
            old(self).wf(),
            p < 4,
        ensures
            final(self).wf(),
            final(self)@ == old(self)@.add_hl(p),
    {
        let hl = self.register.get_hl();
        let n = self.register.get_rp(p);
        let zero = self.register.get_bit(Flags::Zero);
        let (sum, half, full) = CPU::add_words(hl, n);
        self.register.set_hl(sum);
        self.register.set_flags(zero, false, half, full);
    }

    /// Sets the flags as adding the signed offset `d` to SP does.
    fn set_offset_flags(&mut self, d: u8)
        requires
            old(self).wf(),
        ensures
            final(self).wf(),
            final(self).register == old(self)@.offset_flags(d),
            final(self)@ == old(self)@.with_register(old(self)@.offset_flags(d)),
    {
        let low = (self.register.sp % 256) as u8;
        proof {
            lemma_carry_bits(low as int, d as int, false);
        }
        let half = CPU::is_carry_from_bit(3, low, d, false);
        let full = CPU::is_carry_from_bit(7, low, d, false);
        self.register.set_flags(false, false, half, full);
    }

    /// DAA
    fn daa(&mut self)
        requires
            old(self).wf(),
        ensures
            final(self).wf(),
            final(self)@ == old(self)@.daa(),
    {
        let a = self.register.a;
        let negative = self.register.get_bit(Flags::Negative);
        let mut low: bool = self.register.get_bit(Flags::HalfCarry);
        let mut high: bool = self.register.get_carry_flag();
        proof {
            reveal(daa_value);
            lemma_nibble(a);
        }
        if !negative {
            if a & 0x0fu8 > 0x09 {
                low = true;
            }
            if a > 0x99 {
                high = true;
            }
        }
        let adjust: u8 = (if low { 0x06 } else { 0x00 }) + (if high { 0x60 } else { 0x00 });
        if negative {
            self.register.a = a.wrapping_sub(adjust);
        } else {
            self.register.a = a.wrapping_add(adjust);
        }
        self.register.set_flags(CPU::is_result_zero(self.register.a), negative, false, high);
    }

    /// The address that the indirect loads with index `p` go through, and
    /// the step of HL that follows for HL+ and HL-.
    fn indirect_address(&mut self, p: u8) -> (address: u16)
        requires
            old(self).wf(),
            p < 4,
        ensures
            final(self).wf(),
            address == old(self)@.indirect(p),
            final(self)@ == old(self)@.hl_stepped(p),
    {
        let hl = self.register.get_hl();
        match p {
            0 => self.register.get_rp(0),
            1 => self.register.get_rp(1),
            2 => {
                self.register.set_hl(CPU::successor(hl));
                hl
            },
            _ => {
                self.register.set_hl(CPU::predecessor(hl));
                hl
            },
        }
    }

    /// CPL
    fn cpl(&mut self)
        requires
            old(self).wf(),
        ensures
            final(self).wf(),
            final(self)@ == old(self)@.cpl(),
    {
        let zero = self.register.get_bit(Flags::Zero);
        let carry = self.register.get_carry_flag();
        proof {
            lemma_nibble(self.register.a);
        }
        self.register.a = !self.register.a;
        self.register.set_flags(zero, true, true, carry);
    }

    /// CCF
    fn ccf(&mut self)
        requires
            old(self).wf(),
        ensures
            final(self).wf(),
            final(self)@ == old(self)@.ccf(),
    {
        let zero = self.register.get_bit(Flags::Zero);
        let carry = self.register.get_carry_flag();
        self.register.set_flags(zero, false, false, !carry);
    }

    /// SCF
    fn scf(&mut self)
        requires
            old(self).wf(),
        ensures
            final(self).wf(),
            final(self)@ == old(self)@.scf(),
    {
        let zero = self.register.get_bit(Flags::Zero);
        self.register.set_flags(zero, false, false, true);
    }

    /// RLCA, RRCA, RLA, RRA: the rotation on A, with Z cleared whatever the
    /// result.
    fn rot_a(&mut self, op: u8)
        requires
            old(self).wf(),
            op < 4,
        ensures
            final(self).wf(),
            final(self)@ == old(self)@.rot_a(op),
    {
        self.rot(op, 7);
        let carry = self.register.get_carry_flag();
        proof {
            let out = rot_of(op, old(self).register.a, old(self).register.carry());
            lemma_flags_byte(old(self).register, out.0 == 0, false, false, out.1);
        }
        self.register.set_flags(false, false, false, carry);
    }

    /// BIT b,r
    fn test_bit(&mut self, b: u8, r: u8)
        requires
            old(self).wf(),
            b < 8,
            r < 8,
        ensures
            final(self).wf(),
            final(self)@ == old(self)@.test_bit(b, r),
    {
        let bit = self.get_bit_from_register(r, b);
        let carry = self.register.get_carry_flag();
        self.register.set_flags(bit == false, false, true, carry);
    }

    /// Pushes the program counter and jumps to `nn`.
    fn call(&mut self, nn: u16)
        requires
            old(self).wf(),
        ensures
            final(self).wf(),
            final(self)@ == old(self)@.call(nn),
    {
        let pc = self.register.pc;
        self.stack_push(pc);
        self.register.pc = nn;
    }

    /// Pops the program counter.
    fn ret(&mut self)
        requires
            old(self).wf(),
        ensures
            final(self).wf(),
            final(self)@ == old(self)@.ret(),
    {
        self.register.pc = self.stack_pop();
    }

    /// Performs instruction `i`, whose bytes the program counter has already
    /// passed, and returns the cycles that it takes.
    pub fn execute(&mut self, i: Instr) -> (cycles: usize)
        requires
            old(self).wf(),
            i.wf(),
        ensures
            final(self).wf(),
            (final(self)@, cycles as int) == old(self)@.execute(i),
    {
        proof {
            reveal(CpuView::execute);
        }
        match i {
            Instr::Nop => 4,
            Instr::Halt => {
                self.halted = true;
                4
            },
            Instr::LdRN { r, n } => {
                self.set_register(r, n);
                if r == 6 {
                    12
                } else {
                    8
                }
            },
            Instr::LdRR { dst, src } => {
                let n = self.get_register(src);
                self.set_register(dst, n);
                if dst == 6 || src == 6 {
                    8
                } else {
                    4
                }
            },
            Instr::LdMemA { nn } => {
                self.memory.write_8(nn as usize, self.register.a);
                16
            },
            Instr::LdAMem { nn } => {
                self.register.a = self.memory.read_8(nn as usize);
                16
            },
            Instr::LdCA => {
                self.memory.write_8(0xff00 + self.register.c as usize, self.register.a);
                8
            },
            Instr::LdAC => {
                self.register.a = self.memory.read_8(0xff00 + self.register.c as usize);
                8
            },
            Instr::LdhNA { n } => {
                self.memory.write_8(0xff00 + n as usize, self.register.a);
                12
            },
            Instr::LdhAN { n } => {
                self.register.a = self.memory.read_8(0xff00 + n as usize);
                12
            },
            Instr::LdIndA { p } => {
                let address = self.indirect_address(p);
                self.memory.write_8(address as usize, self.register.a);
                8
            },
            Instr::LdAInd { p } => {
                let address = self.indirect_address(p);
                self.register.a = self.memory.read_8(address as usize);
                8
            },
            Instr::LdRpNN { p, nn } => {
                self.register.set_rp(p, nn);
                12
            },
            Instr::LdSpHl => {
                self.register.sp = self.register.get_hl();
                8
            },
            Instr::LdHlSpD { d } => {
                let sp = self.register.sp;
                self.set_offset_flags(d);
                self.register.set_hl(CPU::displace(sp, d));
                12
            },
            Instr::LdMemSp { nn } => {
                self.memory.write_16(nn as usize, self.register.sp);
                20
            },
            Instr::Push { p } => {
                let n = self.register.get_rp2(p);
                self.stack_push(n);
                16
            },
            Instr::Pop { p } => {
                let nn = self.stack_pop();
                self.register.set_rp2(p, nn);
                12
            },
            Instr::AluN { op, n } => {
                self.alu(op, n);
                8
            },
            Instr::AluR { op, r } => {
                let n = self.get_register(r);
                self.alu(op, n);
                if r == 6 {
                    8
                } else {
                    4
                }
            },
            Instr::IncR { r } => {
                self.inc(r);
                if r == 6 {
                    12
                } else {
                    4
                }
            },
            Instr::DecR { r } => {
                self.dec(r);
                if r == 6 {
                    12
                } else {
                    4
                }
            },
            Instr::AddHlRp { p } => {
                self.add_hl(p);
                8
            },
            Instr::AddSpD { d } => {
                let sp = self.register.sp;
                self.set_offset_flags(d);
                self.register.sp = CPU::displace(sp, d);
                16
            },
            Instr::IncRp { p } => {
                let n = CPU::successor(self.register.get_rp(p));
                self.register.set_rp(p, n);
                8
            },
            Instr::DecRp { p } => {
                let n = CPU::predecessor(self.register.get_rp(p));
                self.register.set_rp(p, n);
                8
            },
            Instr::Daa => {
                self.daa();
                4
            },
            Instr::Cpl => {
                self.cpl();
                4
            },
            Instr::Ccf => {
                self.ccf();
                4
            },
            Instr::Scf => {
                self.scf();
                4
            },
            Instr::Di => {
                self.interrupt.delayed_disable = 2;
                4
            },
            Instr::Ei => {
                self.interrupt.delayed_enable = 2;
                4
            },
            Instr::RotA { op } => {
                self.rot_a(op);
                4
            },
            Instr::Jp { nn } => {
                self.register.pc = nn;
                16
            },
            Instr::JpCc { cc, nn } => {
                if self.jump_condition_check(cc) {
                    self.register.pc = nn;
                    16
                } else {
                    12
                }
            },
            Instr::JpHl => {
                self.register.pc = self.register.get_hl();
                4
            },
            Instr::Jr { d } => {
                self.register.pc = CPU::displace(self.register.pc, d);
                12
            },
            Instr::JrCc { cc, d } => {
                if self.jump_condition_check(cc) {
                    self.register.pc = CPU::displace(self.register.pc, d);
                    12
                } else {
                    8
                }
            },
            Instr::Call { nn } => {
                self.call(nn);
                24
            },
            Instr::CallCc { cc, nn } => {
                if self.jump_condition_check(cc) {
                    self.call(nn);
                    24
                } else {
                    12
                }
            },
            Instr::Rst { y } => {
                self.call(y as u16 * 8);
                16
            },
            Instr::Ret => {
                self.ret();
                16
            },
            Instr::RetCc { cc } => {
                if self.jump_condition_check(cc) {
                    self.ret();
                    20
                } else {
                    8
                }
            },
            Instr::Reti => {
                self.ret();
                self.interrupt.master = true;
                16
            },
            Instr::Rot { op, r } => self.rot(op, r) + 4,
            Instr::TestBit { b, r } => {
                self.test_bit(b, r);
                if r == 6 {
                    12
                } else {
                    8
                }
            },
            Instr::ResetBit { b, r } => {
                self.set_bit_from_register(r, b, false);
                if r == 6 {
                    16
                } else {
                    8
                }
            },
            Instr::SetBit { b, r } => {
                self.set_bit_from_register(r, b, true);
                if r == 6 {
                    16
                } else {
                    8
                }
            },
        }
    }

    /// Reads the operands of the instruction of the first table with opcode
    /// `op`, which the program counter has just passed, and returns the
    /// instruction; `None` where the opcode is not supported.
    pub fn decode(&mut self, op: u8) -> (r: Option<Instr>)
        requires
            old(self).wf(),
            op != PREFIX,
        ensures
            final(self).wf(),
            r == decode_primary(
                op,
                old(self)@.opcode(),
                old(self)@.memory.read_16(old(self).register.pc as int),
            ),
            match r {
                Some(i) => i.wf() && final(self)@ == old(self)@.with_pc(
                    advanced(old(self).register.pc, i.operand_bytes()),
                ),
                None => final(self)@ == old(self)@,
            },
    {
        proof {
            reveal(decode_primary);
        }
        let (x, y, z, p, q) = fields(op);
        match x {
            0 => match z {
                0 => match y {
                    0 => Some(Instr::Nop),
                    1 => Some(Instr::LdMemSp { nn: self.read_immediate_16() }),
                    2 => None,
                    3 => Some(Instr::Jr { d: self.read_immediate_8() }),
                    _ => Some(Instr::JrCc { cc: y - 4, d: self.read_immediate_8() }),
                },
                1 => if q == 0 {
                    Some(Instr::LdRpNN { p, nn: self.read_immediate_16() })
                } else {
                    Some(Instr::AddHlRp { p })
                },
                2 => if q == 0 {
                    Some(Instr::LdIndA { p })
                } else {
                    Some(Instr::LdAInd { p })
                },
                3 => if q == 0 {
                    Some(Instr::IncRp { p })
                } else {
                    Some(Instr::DecRp { p })
                },
                4 => Some(Instr::IncR { r: y }),
                5 => Some(Instr::DecR { r: y }),
                6 => Some(Instr::LdRN { r: y, n: self.read_immediate_8() }),
                _ => match y {
                    0 | 1 | 2 | 3 => Some(Instr::RotA { op: y }),
                    4 => Some(Instr::Daa),
                    5 => Some(Instr::Cpl),
                    6 => Some(Instr::Scf),
                    _ => Some(Instr::Ccf),
                },
            },
            1 => if y == 6 && z == 6 {
                Some(Instr::Halt)
            } else {
                Some(Instr::LdRR { dst: y, src: z })
            },
            2 => Some(Instr::AluR { op: y, r: z }),
            _ => match z {
                0 => match y {
                    0 | 1 | 2 | 3 => Some(Instr::RetCc { cc: y }),
                    4 => Some(Instr::LdhNA { n: self.read_immediate_8() }),
                    5 => Some(Instr::AddSpD { d: self.read_immediate_8() }),
                    6 => Some(Instr::LdhAN { n: self.read_immediate_8() }),
                    _ => Some(Instr::LdHlSpD { d: self.read_immediate_8() }),
                },
                1 => if q == 0 {
                    Some(Instr::Pop { p })
                } else {
                    match p {
                        0 => Some(Instr::Ret),
                        1 => Some(Instr::Reti),
                        2 => Some(Instr::JpHl),
                        _ => Some(Instr::LdSpHl),
                    }
                },
                2 => match y {
                    0 | 1 | 2 | 3 => Some(Instr::JpCc { cc: y, nn: self.read_immediate_16() }),
                    4 => Some(Instr::LdCA),
                    5 => Some(Instr::LdMemA { nn: self.read_immediate_16() }),
                    6 => Some(Instr::LdAC),
                    _ => Some(Instr::LdAMem { nn: self.read_immediate_16() }),
                },
                3 => match y {
                    0 => Some(Instr::Jp { nn: self.read_immediate_16() }),
                    6 => Some(Instr::Di),
                    7 => Some(Instr::Ei),
                    _ => None,
                },
                4 => match y {
                    0 | 1 | 2 | 3 => Some(Instr::CallCc { cc: y, nn: self.read_immediate_16() }),
                    _ => None,
                },
                5 => if q == 0 {
                    Some(Instr::Push { p })
                } else if p == 0 {
                    Some(Instr::Call { nn: self.read_immediate_16() })
                } else {
                    None
                },
                6 => Some(Instr::AluN { op: y, n: self.read_immediate_8() }),
                _ => Some(Instr::Rst { y }),
            },
        }
    }

    /// Performs the instruction of the second table with opcode `op`, which
    /// the program counter has already passed, and returns the cycles that
    /// the whole instruction takes, prefix included.
    pub fn exec_alt(&mut self, op: u8) -> (cycles: usize)
        requires
            old(self).wf(),
        ensures
            final(self).wf(),
            (final(self)@, cycles as int) == old(self)@.execute(decode_alt(op)),
    {
        let i = decode_alt_op(op);
        self.execute(i)
    }

    /// Fetches the instruction at the program counter, performs it, and
    /// returns the cycles that it takes.
    pub fn exec(&mut self) -> (cycles: usize)
        requires
            old(self).wf(),
            old(self)@.fetch() is Some,
        ensures
            final(self).wf(),
            (final(self)@, cycles as int) == old(self)@.exec(),
    {
        let ghost start = self@;
        let ghost pc = self.register.pc;
        let op = self.read_immediate_8();
        if op == PREFIX {
            let op_next = self.read_immediate_8();
            proof {
                lemma_advanced_twice(pc, 1, 1);
                assert(start.fetch() == Some(decode_alt(op_next)));
                assert(decode_alt(op_next).operand_bytes() == 1);
                assert(self@ == start.with_pc(advanced(pc, 2)));
            }
            self.exec_alt(op_next)
        } else {
            let ghost fetched = self@;
            match self.decode(op) {
                Some(i) => {
                    proof {
                        lemma_advanced_twice(pc, 1, i.operand_bytes());
                        assert(start.fetch() == Some(i));
                        assert(self@ == fetched.with_pc(advanced(fetched.register.pc, i.operand_bytes())));
                        assert(self@ == start.with_pc(advanced(pc, 1 + i.operand_bytes())));
                    }
                    self.execute(i)
                },
                None => unreached(),
            }
        }
    }

    /// Counts the delayed enable and disable down, ends a halt if a source
    /// is pending, and services the pending source of highest priority if
    /// IME is set. Returns 16 cycles for a serviced interrupt, else none.
    pub fn interrupt_step(&mut self) -> (cycles: usize)
        requires
            old(self).wf(),
        ensures
            final(self).wf(),
            (final(self)@, cycles as int) == old(self)@.interrupt_step(),
    {
        self.interrupt.update_delays();

        let enable = self.memory.read_8(IE_ADDR);
        let mut flag = self.memory.read_8(IF_ADDR);
        if Interrupt::is_pending(enable, flag) {
            self.halted = false;
        }
        match self.interrupt.step(enable, &mut flag) {
            Some(source) => {
                self.memory.write_8(IF_ADDR, flag);
                self.call(source.vector());
                16
            },
            None => 0,
        }
    }

    /// Whether `step` can be called: it will service an interrupt, or idle
    /// in a halt, or find a supported opcode at the program counter.
    pub fn can_step(&self) -> (b: bool)
        requires
            self.wf(),
        ensures
            b == self@.can_step(),
    {
        proof {
            reveal(CpuView::can_step);
        }
        let mut interrupt = self.interrupt;
        interrupt.update_delays();
        let enable = self.memory.read_8(IE_ADDR);
        let flag = self.memory.read_8(IF_ADDR);
        let pending = Interrupt::is_pending(enable, flag);
        let op = self.memory.read_8(self.register.pc as usize);
        proof {
            let at = advanced(self.register.pc, 1) as int;
            lemma_decode_supported(op, self@.memory.read(at), self@.memory.read_16(at));
        }
        (interrupt.master && pending) || (self.halted && !pending) || is_supported(op)
    }

    /// Makes one step: services a pending interrupt, or idles while halted,
    /// or performs the instruction at the program counter. Returns the
    /// cycles that the step takes.
    pub fn step(&mut self) -> (cycles: usize)
        requires
            old(self).wf(),
            old(self)@.can_step(),
        ensures
            final(self).wf(),
            final(self)@.wf(),
            (final(self)@, cycles as int) == old(self)@.step(),
            final(self).register.pc <= 0xffff,
            final(self).register.sp <= 0xffff,
            final(self).register.f % 16 == 0,
    {
        proof {
            reveal(CpuView::step);
            reveal(CpuView::can_step);
            old(self).lemma_view_wf();
            lemma_step_wf(old(self)@);
        }
        match self.interrupt_step() {
            0 => {},
            n => return n,
        }

        if self.halted {
            4
        } else {
            self.exec()
        }
    }

    /// Makes steps until `budget` cycles have gone by, letting the timer
    /// advance after each step by the cycles that the step took, and returns
    /// the cycles that went by. Stops early, before the step, where a step
    /// cannot be made.
    pub fn run(&mut self, budget: usize) -> (cycles: usize)
        requires
            old(self).wf(),
            budget <= usize::MAX - 24,
        ensures
            final(self).wf(),
            (final(self)@, cycles as int) == old(self)@.run(budget as nat),
            cycles >= budget || !final(self)@.can_step(),
    {
        let mut cycles: usize = 0;
        while cycles < budget && self.can_step()
            invariant
                self.wf(),
                budget <= usize::MAX - 24,
                cycles < budget + 24,
                old(self)@.run(budget as nat) == (
                    self@.run(if budget > cycles { (budget - cycles) as nat } else { 0 }).0,
                    cycles + self@.run(if budget > cycles { (budget - cycles) as nat } else { 0 }).1,
                ),
            decreases budget + 24 - cycles,
        {
            proof {
                lemma_step_cycles(self@);
            }
            let n = self.step();
            self.memory.step(n);
            cycles = cycles + n;
        }
        cycles
    }
}

} // verus!
