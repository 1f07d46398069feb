//! Arithmetic of the processor on bytes and words, apart from any machine
//! state: the eight operations on the accumulator, the rotations and shifts,
//! the decimal adjustment, and the carry and borrow predicates behind the
//! half-carry and carry flags.

use vstd::prelude::*;
use vstd::arithmetic::power2::{lemma2_to64, pow2};

verus! {

/// What an operation hands to the accumulator and to the four flags.
pub struct AluOut {
    pub value: u8,
    pub zero: bool,
    pub negative: bool,
    pub half_carry: bool,
    pub carry: bool,
}

/// 1 for a set carry flag, 0 for a clear one.
pub open spec fn carry_in(carry: bool) -> int {
    if carry {
        1
    } else {
        0
    }
}

/// Whether the sum of `op1`, `op2` and the carry-in carries out of bit `bit`.
#[verifier::opaque]
pub open spec fn carries_from_bit(bit: u8, op1: int, op2: int, carry: bool) -> bool {
    let m = pow2((bit + 1) as nat) as int;
    op1 % m + op2 % m + carry_in(carry) >= m
}

/// Whether taking `op2` and the carry-in from `op1` borrows from bit `bit`.
#[verifier::opaque]
pub open spec fn borrows_from_bit(bit: u8, op1: int, op2: int, carry: bool) -> bool {
    let m = pow2(bit as nat) as int;
    op1 % m < op2 % m + carry_in(carry)
}

/// The outcome of ALU operation `op` on the accumulator `a` and the operand
/// `n`, with the carry flag `carry` before it. The operations are, by index,
/// ADD, ADC, SUB, SBC, AND, XOR, OR and CP.
#[verifier::opaque]
pub open spec fn alu_of(op: u8, a: u8, n: u8, carry: bool) -> AluOut
    recommends
        op < 8,
{
    let c = carry_in(carry);
    if op == 0 {
        let value = ((a + n) % 256) as u8;
        AluOut {
            value,
            zero: value == 0,
            negative: false,
            half_carry: a % 16 + n % 16 > 15,
            carry: a + n > 255,
        }
    } else if op == 1 {
        let value = ((a + n + c) % 256) as u8;
        AluOut {
            value,
            zero: value == 0,
            negative: false,
            half_carry: a % 16 + n % 16 + c > 15,
            carry: a + n + c > 255,
        }
    } else if op == 2 {
        let value = ((a - n) % 256) as u8;
        AluOut { value, zero: value == 0, negative: true, half_carry: a % 16 < n % 16, carry: a < n }
    } else if op == 3 {
        let value = ((a - n - c) % 256) as u8;
        AluOut {
            value,
            zero: value == 0,
            negative: true,
            half_carry: a % 16 < n % 16 + c,
            carry: a < n + c,
        }
    } else if op == 4 {
        AluOut { value: a & n, zero: a & n == 0, negative: false, half_carry: true, carry: false }
    } else if op == 5 {
        AluOut { value: a ^ n, zero: a ^ n == 0, negative: false, half_carry: false, carry: false }
    } else if op == 6 {
        AluOut { value: a | n, zero: a | n == 0, negative: false, half_carry: false, carry: false }
    } else {
        AluOut { value: a, zero: a == n, negative: true, half_carry: a % 16 < n % 16, carry: a < n }
    }
}

/// The outcome of rotation or shift `op` on `n`, with the carry flag `carry`
/// before it: the new byte and the bit that left it. The operations are, by
/// index, RLC, RRC, RL, RR, SLA, SRA, SWAP and SRL; SWAP exchanges the two
/// nibbles and lets no bit leave.
#[verifier::opaque]
pub open spec fn rot_of(op: u8, n: u8, carry: bool) -> (u8, bool)
    recommends
        op < 8,
{
    let c = carry_in(carry);
    if op == 0 {
        (((n * 2) % 256 + n / 128) as u8, n >= 128)
    } else if op == 1 {
        ((n / 2 + (n % 2) * 128) as u8, n % 2 == 1)
    } else if op == 2 {
        (((n * 2) % 256 + c) as u8, n >= 128)
    } else if op == 3 {
        ((n / 2 + c * 128) as u8, n % 2 == 1)
    } else if op == 4 {
        (((n * 2) % 256) as u8, n >= 128)
    } else if op == 5 {
        ((n / 2 + (n / 128) * 128) as u8, n % 2 == 1)
    } else if op == 6 {
        (((n % 16) * 16 + n / 16) as u8, false)
    } else {
        ((n / 2) as u8, n % 2 == 1)
    }
}

/// The correction that DAA applies to `a`, given the flags N, H and C.
pub open spec fn daa_adjust(a: u8, negative: bool, half_carry: bool, carry: bool) -> int {
    (if half_carry || (!negative && a % 16 > 9) {
        0x06int
    } else {
        0
    }) + (if carry || (!negative && a > 0x99) {
        0x60int
    } else {
        0
    })
}

/// The accumulator after DAA: the correction is added after an addition and
/// taken off after a subtraction.
#[verifier::opaque]
pub open spec fn daa_value(a: u8, negative: bool, half_carry: bool, carry: bool) -> u8 {
    let adjust = daa_adjust(a, negative, half_carry, carry);
    if negative {
        ((a - adjust) % 256) as u8
    } else {
        ((a + adjust) % 256) as u8
    }
}

/// The carry flag after DAA.
pub open spec fn daa_carry(a: u8, negative: bool, carry: bool) -> bool {
    carry || (!negative && a > 0x99)
}

/// The offset that the byte `d` stands for as a signed number.
pub open spec fn signed(d: u8) -> int {
    if d < 128 {
        d as int
    } else {
        d - 256
    }
}

/// The address `d`, read as a signed offset, away from `base`, within the
/// 16-bit address space.
pub open spec fn displaced(base: u16, d: u8) -> u16 {
    ((base + signed(d)) % 0x10000) as u16
}

/// The address `k` after `base`, within the 16-bit address space.
pub open spec fn advanced(base: u16, k: int) -> u16 {
    ((base + k) % 0x10000) as u16
}

/// The remainder by 256 of a number that is less than 256 away from the
/// range of a byte.
pub proof fn lemma_wrap_byte(x: int)
    requires
        -256 <= x < 512,
    ensures
        x % 256 == (if x < 0 {
            x + 256
        } else if x >= 256 {
            x - 256
        } else {
            x
        }),
{
}

/// Advancing an address in two moves is advancing it by their sum.
pub proof fn lemma_advanced_twice(base: u16, j: int, k: int)
    ensures
        advanced(advanced(base, j), k) == advanced(base, j + k),
{
}

/// The carries and borrows behind the flags, written out: the half-carry
/// leaves bit 3 of a byte or bit 11 of a word, the carry bit 7 or bit 15; the
/// half-borrow is taken from bit 4, the borrow from bit 8.
pub proof fn lemma_carry_bits(op1: int, op2: int, carry: bool)
    ensures
        carries_from_bit(3, op1, op2, carry) == (op1 % 16 + op2 % 16 + carry_in(carry) > 15),
        carries_from_bit(7, op1, op2, carry) == (op1 % 256 + op2 % 256 + carry_in(carry) > 255),
        carries_from_bit(11, op1, op2, carry) == (op1 % 4096 + op2 % 4096 + carry_in(carry) > 4095),
        carries_from_bit(15, op1, op2, carry) == (op1 % 65536 + op2 % 65536 + carry_in(carry) > 65535),
        borrows_from_bit(4, op1, op2, carry) == (op1 % 16 < op2 % 16 + carry_in(carry)),
        borrows_from_bit(8, op1, op2, carry) == (op1 % 256 < op2 % 256 + carry_in(carry)),
{
    reveal(carries_from_bit);
    reveal(borrows_from_bit);
    lemma2_to64();
}

/// Rotating and shifting a byte to the left with the shift operators gives
/// what `rot_of` states in arithmetic; the bit that leaves is the highest.
pub proof fn lemma_left_bits(n: u8, c: u8)
    by (bit_vector)
    requires
        c <= 1u8,
    ensures
        (n & 0x80u8 != 0u8) == (n >= 128u8),
        (n << 1u8) | (n >> 7u8) == (n * 2u8) % 256 + n / 128u8,
        (n << 1u8) | c == (n * 2u8) % 256 + c,
        n << 1u8 == (n * 2u8) % 256,
{
}

/// Rotating and shifting a byte to the right with the shift operators gives
/// what `rot_of` states in arithmetic; the bit that leaves is the lowest.
pub proof fn lemma_right_bits(n: u8, c: u8)
    by (bit_vector)
    requires
        c <= 1u8,
    ensures
        (n & 0x01u8 != 0u8) == (n % 2u8 == 1u8),
        (n >> 1u8) | ((n & 0x01u8) << 7u8) == n / 2u8 + (n % 2u8) * 128u8,
        (n >> 1u8) | (c << 7u8) == n / 2u8 + c * 128u8,
        (n >> 1u8) & !0x80u8 == n / 2u8,
        (n >> 1u8) | (0x80u8 & n) == n / 2u8 + (n / 128u8) * 128u8,
{
}

/// Exchanging the nibbles of a byte with the shift operators gives what
/// `rot_of` states in arithmetic.
pub proof fn lemma_swap_bits(n: u8)
    by (bit_vector)
    ensures
        (n << 4u8) | (n >> 4u8) == (n % 16u8) * 16u8 + n / 16u8,
{
}

/// The low nibble by mask is the remainder by 16, and the complement of a
/// byte is what is missing to 255.
pub proof fn lemma_nibble(a: u8)
    by (bit_vector)
    ensures
        a & 0x0fu8 == a % 16u8,
        !a == 255u8 - a,
{
}

} // verus!
