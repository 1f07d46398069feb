//! The instruction set as data: what each opcode byte, with the bytes that
//! follow it, stands for.
//!
//! An opcode is read as the bit fields `xx yyy zzz`, with `p` the upper two
//! bits of `y` and `q` its lowest bit. An 8-bit operand `r` is an index into
//! B, C, D, E, H, L, (HL), A, where 6 is the byte that HL points to. A pair
//! `p` is an index into BC, DE, HL, SP, for PUSH and POP into BC, DE, HL, AF.
//! A condition `cc` is an index into NZ, Z, NC, C.

use vstd::prelude::*;

verus! {

/// The opcode that announces an instruction of the second table.
pub const PREFIX: u8 = 0xcb;

/// One instruction with its operands.
#[derive(Clone, Copy, Debug, PartialEq, Eq)]
pub enum Instr {
    /// NOP
    Nop,
    /// HALT
    Halt,
    /// LD r,n
    LdRN { r: u8, n: u8 },
    /// LD r,r'
    LdRR { dst: u8, src: u8 },
    /// LD (nn),A
    LdMemA { nn: u16 },
    /// LD A,(nn)
    LdAMem { nn: u16 },
    /// LD (C),A: store A at 0xFF00 + C
    LdCA,
    /// LD A,(C): load A from 0xFF00 + C
    LdAC,
    /// LDH (n),A: store A at 0xFF00 + n
    LdhNA { n: u8 },
    /// LDH A,(n): load A from 0xFF00 + n
    LdhAN { n: u8 },
    /// LD (BC),A; LD (DE),A; LD (HL+),A; LD (HL-),A
    LdIndA { p: u8 },
    /// LD A,(BC); LD A,(DE); LD A,(HL+); LD A,(HL-)
    LdAInd { p: u8 },
    /// LD rp,nn
    LdRpNN { p: u8, nn: u16 },
    /// LD SP,HL
    LdSpHl,
    /// LD HL,SP+d
    LdHlSpD { d: u8 },
    /// LD (nn),SP
    LdMemSp { nn: u16 },
    /// PUSH rp2
    Push { p: u8 },
    /// POP rp2
    Pop { p: u8 },
    /// ADD, ADC, SUB, SBC, AND, XOR, OR, CP of A with an immediate byte
    AluN { op: u8, n: u8 },
    /// ADD, ADC, SUB, SBC, AND, XOR, OR, CP of A with r
    AluR { op: u8, r: u8 },
    /// INC r
    IncR { r: u8 },
    /// DEC r
    DecR { r: u8 },
    /// ADD HL,rp
    AddHlRp { p: u8 },
    /// ADD SP,d
    AddSpD { d: u8 },
    /// INC rp
    IncRp { p: u8 },
    /// DEC rp
    DecRp { p: u8 },
    /// DAA
    Daa,
    /// CPL
    Cpl,
    /// CCF
    Ccf,
    /// SCF
    Scf,
    /// DI
    Di,
    /// EI
    Ei,
    /// RLCA, RRCA, RLA, RRA
    RotA { op: u8 },
    /// JP nn
    Jp { nn: u16 },
    /// JP cc,nn
    JpCc { cc: u8, nn: u16 },
    /// JP (HL)
    JpHl,
    /// JR d
    Jr { d: u8 },
    /// JR cc,d
    JrCc { cc: u8, d: u8 },
    /// CALL nn
    Call { nn: u16 },
    /// CALL cc,nn
    CallCc { cc: u8, nn: u16 },
    /// RST y*8
    Rst { y: u8 },
    /// RET
    Ret,
    /// RET cc
    RetCc { cc: u8 },
    /// RETI
    Reti,
    /// RLC, RRC, RL, RR, SLA, SRA, SWAP, SRL on r (second table)
    Rot { op: u8, r: u8 },
    /// BIT b,r (second table)
    TestBit { b: u8, r: u8 },
    /// RES b,r (second table)
    ResetBit { b: u8, r: u8 },
    /// SET b,r (second table)
    SetBit { b: u8, r: u8 },
}

impl Instr {
    /// Every index is within its grouping.
    pub open spec fn wf(self) -> bool {
        match self {
            Instr::LdRN { r, n } => r < 8,
            Instr::LdRR { dst, src } => dst < 8 && src < 8,
            Instr::LdIndA { p } => p < 4,
            Instr::LdAInd { p } => p < 4,
            Instr::LdRpNN { p, nn } => p < 4,
            Instr::Push { p } => p < 4,
            Instr::Pop { p } => p < 4,
            Instr::AluN { op, n } => op < 8,
            Instr::AluR { op, r } => op < 8 && r < 8,
            Instr::IncR { r } => r < 8,
            Instr::DecR { r } => r < 8,
            Instr::AddHlRp { p } => p < 4,
            Instr::IncRp { p } => p < 4,
            Instr::DecRp { p } => p < 4,
            Instr::RotA { op } => op < 4,
            Instr::JpCc { cc, nn } => cc < 4,
            Instr::JrCc { cc, d } => cc < 4,
            Instr::CallCc { cc, nn } => cc < 4,
            Instr::Rst { y } => y < 8,
            Instr::RetCc { cc } => cc < 4,
            Instr::Rot { op, r } => op < 8 && r < 8,
            Instr::TestBit { b, r } => b < 8 && r < 8,
            Instr::ResetBit { b, r } => b < 8 && r < 8,
            Instr::SetBit { b, r } => b < 8 && r < 8,
            _ => true,
        }
    }

    /// Whether the instruction moves a byte or a word and does nothing else.
    pub open spec fn is_load(self) -> bool {
        match self {
            Instr::LdRN { .. }
            | Instr::LdRR { .. }
            | Instr::LdMemA { .. }
            | Instr::LdAMem { .. }
            | Instr::LdCA
            | Instr::LdAC
            | Instr::LdhNA { .. }
            | Instr::LdhAN { .. }
            | Instr::LdIndA { .. }
            | Instr::LdAInd { .. }
            | Instr::LdRpNN { .. }
            | Instr::LdSpHl
            | Instr::LdMemSp { .. }
            | Instr::Push { .. }
            | Instr::Pop { .. } => true,
            _ => false,
        }
    }

    /// Whether the instruction computes on A, on an 8-bit operand or on a
    /// pair.
    pub open spec fn is_arithmetic(self) -> bool {
        match self {
            Instr::LdHlSpD { .. }
            | Instr::AluN { .. }
            | Instr::AluR { .. }
            | Instr::IncR { .. }
            | Instr::DecR { .. }
            | Instr::AddHlRp { .. }
            | Instr::AddSpD { .. }
            | Instr::IncRp { .. }
            | Instr::DecRp { .. }
            | Instr::Daa
            | Instr::Cpl
            | Instr::Ccf
            | Instr::Scf
            | Instr::RotA { .. } => true,
            _ => false,
        }
    }

    /// Whether the instruction belongs to the second table.
    pub open spec fn is_alt(self) -> bool {
        match self {
            Instr::Rot { .. } | Instr::TestBit { .. } | Instr::ResetBit { .. } | Instr::SetBit { .. } => true,
            _ => false,
        }
    }

    /// Whether the instruction changes the flow of control or the
    /// processor's own state: all that is left.
    pub open spec fn is_control(self) -> bool {
        !self.is_load() && !self.is_arithmetic() && !self.is_alt()
    }

    /// The bytes that follow the first opcode byte: immediate operands, or
    /// the opcode of the second table.
    pub open spec fn operand_bytes(self) -> int {
        match self {
            Instr::LdRN { .. } => 1,
            Instr::LdMemA { .. } => 2,
            Instr::LdAMem { .. } => 2,
            Instr::LdhNA { .. } => 1,
            Instr::LdhAN { .. } => 1,
            Instr::LdRpNN { .. } => 2,
            Instr::LdHlSpD { .. } => 1,
            Instr::LdMemSp { .. } => 2,
            Instr::AluN { .. } => 1,
            Instr::AddSpD { .. } => 1,
            Instr::Jp { .. } => 2,
            Instr::JpCc { .. } => 2,
            Instr::Jr { .. } => 1,
            Instr::JrCc { .. } => 1,
            Instr::Call { .. } => 2,
            Instr::CallCc { .. } => 2,
            Instr::Rot { .. } => 1,
            Instr::TestBit { .. } => 1,
            Instr::ResetBit { .. } => 1,
            Instr::SetBit { .. } => 1,
            _ => 0,
        }
    }
}

/// The opcodes of the first table that stand for no instruction here: STOP
/// and the eleven bytes that the processor leaves undefined.
pub open spec fn supported(op: u8) -> bool {
    !(op == 0x10 || op == 0xd3 || op == 0xdb || op == 0xdd || op == 0xe3 || op == 0xe4 || op == 0xeb || op
        == 0xec || op == 0xed || op == 0xf4 || op == 0xfc || op == 0xfd)
}

/// The field `xx` of an opcode.
pub open spec fn field_x(op: u8) -> u8 {
    op / 64
}

/// The field `yyy` of an opcode.
pub open spec fn field_y(op: u8) -> u8 {
    (op / 8) % 8
}

/// The field `zzz` of an opcode.
pub open spec fn field_z(op: u8) -> u8 {
    op % 8
}

/// The instruction of the second table with opcode `op`.
pub open spec fn decode_alt(op: u8) -> Instr {
    let x = field_x(op);
    let y = field_y(op);
    let z = field_z(op);
    if x == 0 {
        Instr::Rot { op: y, r: z }
    } else if x == 1 {
        Instr::TestBit { b: y, r: z }
    } else if x == 2 {
        Instr::ResetBit { b: y, r: z }
    } else {
        Instr::SetBit { b: y, r: z }
    }
}

/// The instruction of the first table with opcode `op`, where `n` is the
/// byte that follows the opcode and `nn` the little-endian word that follows
/// it; `None` for the opcodes that are not supported and for the prefix.
#[verifier::opaque]
pub open spec fn decode_primary(op: u8, n: u8, nn: u16) -> Option<Instr> {
    let x = field_x(op);
    let y = field_y(op);
    let z = field_z(op);
    let p = (y / 2) as u8;
    let q = y % 2;
    if x == 0 {
        if z == 0 {
            if y == 0 {
                Some(Instr::Nop)
            } else if y == 1 {
                Some(Instr::LdMemSp { nn })
            } else if y == 2 {
                None
            } else if y == 3 {
                Some(Instr::Jr { d: n })
            } else {
                Some(Instr::JrCc { cc: (y - 4) as u8, d: n })
            }
        } else if z == 1 {
            if q == 0 {
                Some(Instr::LdRpNN { p, nn })
            } else {
                Some(Instr::AddHlRp { p })
            }
        } else if z == 2 {
            if q == 0 {
                Some(Instr::LdIndA { p })
            } else {
                Some(Instr::LdAInd { p })
            }
        } else if z == 3 {
            if q == 0 {
                Some(Instr::IncRp { p })
            } else {
                Some(Instr::DecRp { p })
            }
        } else if z == 4 {
            Some(Instr::IncR { r: y })
        } else if z == 5 {
            Some(Instr::DecR { r: y })
        } else if z == 6 {
            Some(Instr::LdRN { r: y, n })
        } else if y < 4 {
            Some(Instr::RotA { op: y })
        } else if y == 4 {
            Some(Instr::Daa)
        } else if y == 5 {
            Some(Instr::Cpl)
        } else if y == 6 {
            Some(Instr::Scf)
        } else {
            Some(Instr::Ccf)
        }
    } else if x == 1 {
        if y == 6 && z == 6 {
            Some(Instr::Halt)
        } else {
            Some(Instr::LdRR { dst: y, src: z })
        }
    } else if x == 2 {
        Some(Instr::AluR { op: y, r: z })
    } else if z == 0 {
        if y < 4 {
            Some(Instr::RetCc { cc: y })
        } else if y == 4 {
            Some(Instr::LdhNA { n })
        } else if y == 5 {
            Some(Instr::AddSpD { d: n })
        } else if y == 6 {
            Some(Instr::LdhAN { n })
        } else {
            Some(Instr::LdHlSpD { d: n })
        }
    } else if z == 1 {
        if q == 0 {
            Some(Instr::Pop { p })
        } else if p == 0 {
            Some(Instr::Ret)
        } else if p == 1 {
            Some(Instr::Reti)
        } else if p == 2 {
            Some(Instr::JpHl)
        } else {
            Some(Instr::LdSpHl)
        }
    } else if z == 2 {
        if y < 4 {
            Some(Instr::JpCc { cc: y, nn })
        } else if y == 4 {
            Some(Instr::LdCA)
        } else if y == 5 {
            Some(Instr::LdMemA { nn })
        } else if y == 6 {
            Some(Instr::LdAC)
        } else {
            Some(Instr::LdAMem { nn })
        }
    } else if z == 3 {
        if y == 0 {
            Some(Instr::Jp { nn })
        } else if y == 6 {
            Some(Instr::Di)
        } else if y == 7 {
            Some(Instr::Ei)
        } else {
            None
        }
    } else if z == 4 {
        if y < 4 {
            Some(Instr::CallCc { cc: y, nn })
        } else {
            None
        }
    } else if z == 5 {
        if q == 0 {
            Some(Instr::Push { p })
        } else if p == 0 {
            Some(Instr::Call { nn })
        } else {
            None
        }
    } else if z == 6 {
        Some(Instr::AluN { op: y, n })
    } else {
        Some(Instr::Rst { y })
    }
}

/// The instruction that starts with opcode `op`, where `n` is the byte that
/// follows the opcode and `nn` the little-endian word that follows it.
pub open spec fn decode(op: u8, n: u8, nn: u16) -> Option<Instr> {
    if op == PREFIX {
        Some(decode_alt(n))
    } else {
        decode_primary(op, n, nn)
    }
}

proof fn lemma_fields(op: u8)
    by (bit_vector)
    ensures
        op >> 6 == op / 64,
        (op >> 3) & 7 == (op / 8) % 8,
        op & 7 == op % 8,
        ((op >> 3) & 7) >> 1 == ((op / 8) % 8) / 2,
        ((op >> 3) & 7) & 1 == ((op / 8) % 8) % 2,
{
}

/// The fields `x`, `y`, `z`, `p` and `q` of an opcode.
pub fn fields(op: u8) -> (r: (u8, u8, u8, u8, u8))
    ensures
        r.0 == field_x(op),
        r.1 == field_y(op),
        r.2 == field_z(op),
        r.3 == field_y(op) / 2,
        r.4 == field_y(op) % 2,
        r.0 < 4,
        r.1 < 8,
        r.2 < 8,
        r.3 < 4,
        r.4 < 2,
{
    proof {
        lemma_fields(op);
    }
    let y = (op >> 3) & 7;
    (op >> 6, y, op & 7, y >> 1, y & 1)
}

/// Whether `op` starts an instruction that this crate executes.
pub fn is_supported(op: u8) -> (b: bool)
    ensures
        b == supported(op),
{
    match op {
        0x10 | 0xd3 | 0xdb | 0xdd | 0xe3 | 0xe4 | 0xeb | 0xec | 0xed | 0xf4 | 0xfc | 0xfd => false,
        _ => true,
    }
}

/// Decodes an opcode of the second table.
pub fn decode_alt_op(op: u8) -> (i: Instr)
    ensures
        i == decode_alt(op),
        i.wf(),
{
    let (x, y, z, _, _) = fields(op);
    match x {
        0 => Instr::Rot { op: y, r: z },
        1 => Instr::TestBit { b: y, r: z },
        2 => Instr::ResetBit { b: y, r: z },
        _ => Instr::SetBit { b: y, r: z },
    }
}

/// An opcode stands for an instruction exactly if it is supported, whatever
/// follows it, and the instruction's indices are then within their groupings.
pub proof fn lemma_decode_supported(op: u8, n: u8, nn: u16)
    ensures
        decode(op, n, nn) is Some <==> supported(op),
        decode(op, n, nn) matches Some(i) ==> i.wf(),
{
    reveal(decode_primary);
}

} // verus!
