//! The register file: eight 8-bit registers, the stack pointer and the
//! program counter, with the 16-bit paired views and the four flag bits.

use vstd::prelude::*;
use crate::utils::{
    bit_of, high_byte, join_8_to_16, lemma_single_bit, low_byte, split_16_to_8, with_bit_clear,
    with_bit_set, word_of,
};

verus! {

/// The register file. The upper nibble of `f` holds the flags Z, N, H and C
/// (bits 7 to 4); its lower nibble is zero in every well-formed value.
#[derive(Clone, Copy, Debug)]
pub struct Register {
    pub a: u8,
    pub f: u8,
    pub b: u8,
    pub c: u8,
    pub d: u8,
    pub e: u8,
    pub h: u8,
    pub l: u8,
    pub sp: u16,
    pub pc: u16,
}

/// One of the four flag bits of `f`.
#[derive(Clone, Copy, Debug)]
pub enum Flags {
    Zero,
    Negative,
    HalfCarry,
    Carry,
}

impl Flags {
    /// The value of the flag's bit within `f`.
    pub open spec fn weight(self) -> u8 {
        match self {
            Flags::Zero => 128,
            Flags::Negative => 64,
            Flags::HalfCarry => 32,
            Flags::Carry => 16,
        }
    }

    /// The mask that selects the flag's bit within `f`.
    pub fn mask(self) -> (m: u8)
        ensures
            m == self.weight(),
    {
        match self {
            Flags::Zero => 0x80,
            Flags::Negative => 0x40,
            Flags::HalfCarry => 0x20,
            Flags::Carry => 0x10,
        }
    }
}

/// The flag byte in which exactly the given flags are set.
pub open spec fn flags_byte(z: bool, n: bool, h: bool, c: bool) -> u8 {
    ((if z { 128int } else { 0 }) + (if n { 64int } else { 0 }) + (if h { 32int } else { 0 }) + (if c {
        16int
    } else {
        0
    })) as u8
}

proof fn lemma_pack_flags(z: bool, n: bool, h: bool, c: bool)
    by (bit_vector)
    ensures
        (if z { 0x80u8 } else { 0 }) | (if n { 0x40u8 } else { 0 }) | (if h { 0x20u8 } else { 0 }) | (if c {
            0x10u8
        } else {
            0
        }) == (if z { 0x80u8 } else { 0 }) + (if n { 0x40u8 } else { 0 }) + (if h { 0x20u8 } else { 0 }) + (if c {
            0x10u8
        } else {
            0
        }),
{
}

proof fn lemma_high_nibble(x: u8)
    by (bit_vector)
    ensures
        x & 0xf0 == x - x % 16,
{
}

impl Register {
    /// The low nibble of `f` is zero.
    pub open spec fn wf(self) -> bool {
        self.f % 16 == 0
    }

    /// The register state after the boot ROM has handed over.
    pub open spec fn initial() -> Register {
        Register {
            a: 0x01,
            f: 0xB0,
            b: 0x00,
            c: 0x13,
            d: 0x00,
            e: 0xD8,
            h: 0x01,
            l: 0x4D,
            sp: 0xfffe,
            pc: 0x100,
        }
    }

    /// Whether the given flag is set.
    pub open spec fn flag(self, bit: Flags) -> bool {
        bit_of(self.f, bit.weight())
    }

    pub open spec fn zero(self) -> bool {
        self.flag(Flags::Zero)
    }

    pub open spec fn negative(self) -> bool {
        self.flag(Flags::Negative)
    }

    pub open spec fn half_carry(self) -> bool {
        self.flag(Flags::HalfCarry)
    }

    pub open spec fn carry(self) -> bool {
        self.flag(Flags::Carry)
    }

    /// The register file with the given flag set to `b` and all else as it was.
    pub open spec fn with_flag(self, bit: Flags, b: bool) -> Register {
        Register {
            f: if b {
                with_bit_set(self.f, bit.weight())
            } else {
                with_bit_clear(self.f, bit.weight())
            },
            ..self
        }
    }

    /// The register file with all four flags replaced.
    pub open spec fn with_flags(self, z: bool, n: bool, h: bool, c: bool) -> Register {
        Register { f: flags_byte(z, n, h, c), ..self }
    }

    /// The pair HL, H in the high byte.
    pub open spec fn hl(self) -> u16 {
        word_of(self.h, self.l)
    }

    pub open spec fn with_hl(self, n: u16) -> Register {
        Register { h: high_byte(n), l: low_byte(n), ..self }
    }

    /// The pair with index `i` of the grouping BC, DE, HL, SP.
    pub open spec fn rp(self, i: u8) -> u16
        recommends
            i < 4,
    {
        if i == 0 {
            word_of(self.b, self.c)
        } else if i == 1 {
            word_of(self.d, self.e)
        } else if i == 2 {
            word_of(self.h, self.l)
        } else {
            self.sp
        }
    }

    pub open spec fn with_rp(self, i: u8, n: u16) -> Register
        recommends
            i < 4,
    {
        if i == 0 {
            Register { b: high_byte(n), c: low_byte(n), ..self }
        } else if i == 1 {
            Register { d: high_byte(n), e: low_byte(n), ..self }
        } else if i == 2 {
            Register { h: high_byte(n), l: low_byte(n), ..self }
        } else {
            Register { sp: n, ..self }
        }
    }

    /// The pair with index `i` of the grouping BC, DE, HL, AF.
    pub open spec fn rp2(self, i: u8) -> u16
        recommends
            i < 4,
    {
        if i == 3 {
            word_of(self.a, self.f)
        } else {
            self.rp(i)
        }
    }

    /// Writing AF keeps only the upper nibble of the low byte, so that the
    /// result is well-formed whatever `n` is.
    pub open spec fn with_rp2(self, i: u8, n: u16) -> Register
        recommends
            i < 4,
    {
        if i == 3 {
            Register { a: high_byte(n), f: (low_byte(n) - low_byte(n) % 16) as u8, ..self }
        } else {
            self.with_rp(i, n)
        }
    }

    pub fn new() -> (r: Register)
        ensures
            r == Register::initial(),
            r.wf(),
    {
        Register {
            a: 0x01,
            f: 0xB0,
            b: 0,
            c: 0x13,
            d: 0,
            e: 0xD8,
            h: 0x01,
            l: 0x4D,
            sp: 0xfffe,
            pc: 0x100,
        }
    }

    pub fn get_hl(&self) -> (r: u16)
        ensures
            r == self.hl(),
    {
        join_8_to_16(self.h, self.l)
    }

    pub fn set_hl(&mut self, n: u16)
        ensures
            *final(self) == old(self).with_hl(n),
    {
        let ns = split_16_to_8(n);
        self.h = ns.0;
        self.l = ns.1;
    }

    pub fn get_rp(&self, i: u8) -> (r: u16)
        requires
            i < 4,
        ensures
            r == self.rp(i),
    {
        match i {
            0 => join_8_to_16(self.b, self.c),
            1 => join_8_to_16(self.d, self.e),
            2 => join_8_to_16(self.h, self.l),
            _ => self.sp,
        }
    }

    pub fn set_rp(&mut self, i: u8, n: u16)
        requires
            i < 4,
        ensures
            *final(self) == old(self).with_rp(i, n),
    {
        let ns = split_16_to_8(n);
        match i {
            0 => {
                self.b = ns.0;
                self.c = ns.1
            },
            1 => {
                self.d = ns.0;
                self.e = ns.1
            },
            2 => {
                self.h = ns.0;
                self.l = ns.1
            },
            _ => self.sp = n,
        }
    }

    pub fn get_rp2(&self, i: u8) -> (r: u16)
        requires
            i < 4,
        ensures
            r == self.rp2(i),
    {
        match i {
            3 => join_8_to_16(self.a, self.f),
            _ => self.get_rp(i),
        }
    }

    pub fn set_rp2(&mut self, i: u8, n: u16)
        requires
            i < 4,
        ensures
            *final(self) == old(self).with_rp2(i, n),
            old(self).wf() ==> final(self).wf(),
    {
        let ns = split_16_to_8(n);
        match i {
            3 => {
                proof {
                    lemma_high_nibble(ns.1);
                }
                self.a = ns.0;
                self.f = ns.1 & 0xf0
            },
            _ => self.set_rp(i, n),
        }
    }

    pub fn get_bit(&self, bit: Flags) -> (b: bool)
        ensures
            b == self.flag(bit),
    {
        let m = bit.mask();
        proof {
            lemma_single_bit(self.f, m);
        }
        self.f & m != 0
    }

    pub fn get_carry_flag(&self) -> (b: bool)
        ensures
            b == self.carry(),
    {
        self.get_bit(Flags::Carry)
    }

    pub fn set_bit(&mut self, bit: Flags, b: bool)
        ensures
            *final(self) == old(self).with_flag(bit, b),
            old(self).wf() ==> final(self).wf(),
    {
        let m = bit.mask();
        proof {
            lemma_single_bit(self.f, m);
            assert(m == 128 || m == 64 || m == 32 || m == 16);
        }
        if b {
            self.f |= m
        } else {
            self.f &= !m
        }
    }

    pub fn set_zero_flag(&mut self, b: bool)
        ensures
            *final(self) == old(self).with_flag(Flags::Zero, b),
            old(self).wf() ==> final(self).wf(),
    {
        self.set_bit(Flags::Zero, b);
    }

    pub fn set_negative_flag(&mut self, b: bool)
        ensures
            *final(self) == old(self).with_flag(Flags::Negative, b),
            old(self).wf() ==> final(self).wf(),
    {
        self.set_bit(Flags::Negative, b);
    }

    pub fn set_half_carry_flag(&mut self, b: bool)
        ensures
            *final(self) == old(self).with_flag(Flags::HalfCarry, b),
            old(self).wf() ==> final(self).wf(),
    {
        self.set_bit(Flags::HalfCarry, b);
    }

    pub fn set_carry_flag(&mut self, b: bool)
        ensures
            *final(self) == old(self).with_flag(Flags::Carry, b),
            old(self).wf() ==> final(self).wf(),
    {
        self.set_bit(Flags::Carry, b);
    }

    /// Replaces all four flags at once.
    pub fn set_flags(&mut self, z: bool, n: bool, h: bool, c: bool)
        requires
            old(self).wf(),
        ensures
            *final(self) == old(self).with_flags(z, n, h, c),
            final(self).wf(),
    {
        proof {
            lemma_pack_flags(z, n, h, c);
        }
        self.f = (if z { 0x80u8 } else { 0 }) | (if n { 0x40u8 } else { 0 }) | (if h { 0x20u8 } else { 0 }) | (if c {
            0x10u8
        } else {
            0
        });
    }
}

/// A well-formed flag byte is determined by its four flags, and each of them
/// can be read back from the byte that `flags_byte` builds.
pub proof fn lemma_flags_byte(r: Register, z: bool, n: bool, h: bool, c: bool)
    ensures
        r.wf() ==> r.f == flags_byte(r.zero(), r.negative(), r.half_carry(), r.carry()),
        r.with_flags(z, n, h, c).wf(),
        r.with_flags(z, n, h, c).zero() == z,
        r.with_flags(z, n, h, c).negative() == n,
        r.with_flags(z, n, h, c).half_carry() == h,
        r.with_flags(z, n, h, c).carry() == c,
{
    reveal(bit_of);
}

/// Replacing the flags, and writing a pair, gives a well-formed register
/// file: the first always, the second from a well-formed one.
pub proof fn lemma_registers_wf()
    ensures
        forall|r: Register, z: bool, n: bool, h: bool, c: bool| (#[trigger] r.with_flags(z, n, h, c)).wf(),
        forall|r: Register, n: u16| r.wf() ==> (#[trigger] r.with_hl(n)).wf(),
        forall|r: Register, p: u8, n: u16| r.wf() ==> (#[trigger] r.with_rp(p, n)).wf(),
        forall|r: Register, p: u8, n: u16| r.wf() ==> (#[trigger] r.with_rp2(p, n)).wf(),
{
}

} // verus!
