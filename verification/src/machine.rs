//! The machine as a mathematical object: its state, what each instruction
//! makes of a state and how many cycles it takes, and what one step does.
//! The executable processor is proved to follow this description.

use vstd::prelude::*;
use crate::alu::{advanced, alu_of, daa_carry, daa_value, displaced, rot_of};
use crate::instruction::{decode, lemma_decode_supported, Instr};
use crate::interrupt::{pending, Interrupt};
use crate::memory::{
    lemma_write_16_then_read_16, lemma_write_frame, lemma_write_then_read, next_address,
    MemoryView,
};
use crate::utils::{bit_of, bit_weight, high_byte, low_byte, with_bit_clear, with_bit_set};
use crate::register::{lemma_flags_byte, lemma_registers_wf, Register};

verus! {

/// The state of the machine: registers, memory, interrupt controller, and
/// whether the processor is halted.
pub struct CpuView {
    pub register: Register,
    pub memory: MemoryView,
    pub interrupt: Interrupt,
    pub halted: bool,
}

impl CpuView {
    pub open spec fn wf(self) -> bool {
        self.register.wf() && self.memory.wf()
    }

    /// The machine after reset around the cartridge image `cart`.
    pub open spec fn initial(cart: Seq<u8>) -> CpuView {
        CpuView {
            register: Register::initial(),
            memory: MemoryView::initial(cart),
            interrupt: Interrupt::initial(),
            halted: false,
        }
    }

    pub open spec fn with_register(self, register: Register) -> CpuView {
        CpuView { register, ..self }
    }

    pub open spec fn with_pc(self, pc: u16) -> CpuView {
        self.with_register(Register { pc, ..self.register })
    }

    pub open spec fn with_a(self, a: u8) -> CpuView {
        self.with_register(Register { a, ..self.register })
    }

    /// The state after `n` is written to memory at `address`.
    pub open spec fn store(self, address: int, n: u8) -> CpuView {
        CpuView { memory: self.memory.write(address, n), ..self }
    }

    /// The 8-bit operand with index `r`; index 6 is the byte at HL.
    pub open spec fn read_r(self, r: u8) -> u8
        recommends
            r < 8,
    {
        if r == 0 {
            self.register.b
        } else if r == 1 {
            self.register.c
        } else if r == 2 {
            self.register.d
        } else if r == 3 {
            self.register.e
        } else if r == 4 {
            self.register.h
        } else if r == 5 {
            self.register.l
        } else if r == 6 {
            self.memory.read(self.register.hl() as int)
        } else {
            self.register.a
        }
    }

    /// The state after `n` is written to the 8-bit operand with index `r`.
    pub open spec fn write_r(self, r: u8, n: u8) -> CpuView
        recommends
            r < 8,
    {
        if r == 0 {
            self.with_register(Register { b: n, ..self.register })
        } else if r == 1 {
            self.with_register(Register { c: n, ..self.register })
        } else if r == 2 {
            self.with_register(Register { d: n, ..self.register })
        } else if r == 3 {
            self.with_register(Register { e: n, ..self.register })
        } else if r == 4 {
            self.with_register(Register { h: n, ..self.register })
        } else if r == 5 {
            self.with_register(Register { l: n, ..self.register })
        } else if r == 6 {
            self.store(self.register.hl() as int, n)
        } else {
            self.with_register(Register { a: n, ..self.register })
        }
    }

    /// The state after `n` is pushed: SP goes down by two, and `n` is stored
    /// at the new SP, low byte first.
    pub open spec fn push(self, n: u16) -> CpuView {
        let sp = advanced(self.register.sp, -2);
        CpuView {
            register: Register { sp, ..self.register },
            memory: self.memory.write_16(sp as int, n),
            ..self
        }
    }

    /// The word on top of the stack.
    pub open spec fn top(self) -> u16 {
        self.memory.read_16(self.register.sp as int)
    }

    /// The state after the top of the stack is taken off: SP goes up by two.
    pub open spec fn popped(self) -> CpuView {
        self.with_register(Register { sp: advanced(self.register.sp, 2), ..self.register })
    }

    /// Whether the condition with index `cc` of NZ, Z, NC, C holds.
    pub open spec fn condition(self, cc: u8) -> bool
        recommends
            cc < 4,
    {
        if cc == 0 {
            !self.register.zero()
        } else if cc == 1 {
            self.register.zero()
        } else if cc == 2 {
            !self.register.carry()
        } else {
            self.register.carry()
        }
    }

    /// The state after ALU operation `op` on A and `n`.
    pub open spec fn alu(self, op: u8, n: u8) -> CpuView
        recommends
            op < 8,
    {
        let out = alu_of(op, self.register.a, n, self.register.carry());
        self.with_register(
            Register { a: out.value, ..self.register }.with_flags(
                out.zero,
                out.negative,
                out.half_carry,
                out.carry,
            ),
        )
    }

    /// INC r: Z, N and H follow the result, C stays.
    pub open spec fn inc_r(self, r: u8) -> CpuView {
        let n = self.read_r(r);
        let result = ((n + 1) % 256) as u8;
        let s = self.write_r(r, result);
        s.with_register(s.register.with_flags(result == 0, false, n % 16 == 15, self.register.carry()))
    }

    /// DEC r: Z, N and H follow the result, C stays.
    pub open spec fn dec_r(self, r: u8) -> CpuView {
        let n = self.read_r(r);
        let result = ((n - 1) % 256) as u8;
        let s = self.write_r(r, result);
        s.with_register(s.register.with_flags(result == 0, true, n % 16 == 0, self.register.carry()))
    }

    /// ADD HL,rp: H is the carry out of bit 11, C the carry out of bit 15,
    /// Z stays.
    pub open spec fn add_hl(self, p: u8) -> CpuView {
        let hl = self.register.hl();
        let n = self.register.rp(p);
        self.with_register(
            self.register.with_hl(advanced(hl, n as int)).with_flags(
                self.register.zero(),
                false,
                hl % 4096 + n % 4096 > 4095,
                hl + n > 65535,
            ),
        )
    }

    /// The flags after SP and a signed offset are added: Z and N are clear,
    /// H and C come from adding the offset, as an unsigned byte, to the low
    /// byte of SP.
    pub open spec fn offset_flags(self, d: u8) -> Register {
        let sp = self.register.sp;
        self.register.with_flags(false, false, sp % 16 + d % 16 > 15, sp % 256 + d > 255)
    }

    /// ADD SP,d
    pub open spec fn add_sp(self, d: u8) -> CpuView {
        self.with_register(
            Register { sp: displaced(self.register.sp, d), ..self.offset_flags(d) },
        )
    }

    /// LD HL,SP+d
    pub open spec fn ld_hl_sp(self, d: u8) -> CpuView {
        self.with_register(self.offset_flags(d).with_hl(displaced(self.register.sp, d)))
    }

    /// DAA: Z and C follow the adjustment, H is cleared, N stays.
    pub open spec fn daa(self) -> CpuView {
        let r = self.register;
        let a = daa_value(r.a, r.negative(), r.half_carry(), r.carry());
        self.with_register(
            Register { a, ..r }.with_flags(a == 0, r.negative(), false, daa_carry(r.a, r.negative(), r.carry())),
        )
    }

    /// CPL: A is complemented, N and H are set.
    pub open spec fn cpl(self) -> CpuView {
        let r = self.register;
        self.with_register(Register { a: (255 - r.a) as u8, ..r }.with_flags(r.zero(), true, true, r.carry()))
    }

    /// CCF: C is inverted, N and H are cleared.
    pub open spec fn ccf(self) -> CpuView {
        let r = self.register;
        self.with_register(r.with_flags(r.zero(), false, false, !r.carry()))
    }

    /// SCF: C is set, N and H are cleared.
    pub open spec fn scf(self) -> CpuView {
        let r = self.register;
        self.with_register(r.with_flags(r.zero(), false, false, true))
    }

    /// RLCA, RRCA, RLA, RRA: A is rotated, C is the bit that left, and Z is
    /// cleared whatever the result.
    pub open spec fn rot_a(self, op: u8) -> CpuView {
        let r = self.register;
        let out = rot_of(op, r.a, r.carry());
        self.with_register(Register { a: out.0, ..r }.with_flags(false, false, false, out.1))
    }

    /// The rotations and shifts of the second table: Z follows the result,
    /// C is the bit that left.
    pub open spec fn rot(self, op: u8, r: u8) -> CpuView {
        let out = rot_of(op, self.read_r(r), self.register.carry());
        let s = self.write_r(r, out.0);
        s.with_register(s.register.with_flags(out.0 == 0, false, false, out.1))
    }

    /// BIT b,r: Z is set if the bit is clear, N is cleared, H is set, C stays.
    pub open spec fn test_bit(self, b: u8, r: u8) -> CpuView {
        let r8 = self.register;
        self.with_register(
            r8.with_flags(!bit_of(self.read_r(r), bit_weight(b)), false, true, r8.carry()),
        )
    }

    /// RES b,r
    pub open spec fn reset_bit(self, b: u8, r: u8) -> CpuView {
        self.write_r(r, with_bit_clear(self.read_r(r), bit_weight(b)))
    }

    /// SET b,r
    pub open spec fn set_bit(self, b: u8, r: u8) -> CpuView {
        self.write_r(r, with_bit_set(self.read_r(r), bit_weight(b)))
    }

    /// The address that the indirect loads with index `p` go through: BC, DE,
    /// and HL for both HL+ and HL-.
    pub open spec fn indirect(self, p: u8) -> u16 {
        if p == 0 {
            self.register.rp(0)
        } else if p == 1 {
            self.register.rp(1)
        } else {
            self.register.hl()
        }
    }

    /// HL after an indirect load with index `p`: one up for HL+, one down for
    /// HL-.
    pub open spec fn hl_stepped(self, p: u8) -> CpuView {
        if p == 2 {
            self.with_register(self.register.with_hl(advanced(self.register.hl(), 1)))
        } else if p == 3 {
            self.with_register(self.register.with_hl(advanced(self.register.hl(), -1)))
        } else {
            self
        }
    }

    /// The state after a jump to `nn` if `taken`, else the state as it is.
    pub open spec fn jump_if(self, taken: bool, nn: u16) -> CpuView {
        if taken {
            self.with_pc(nn)
        } else {
            self
        }
    }

    /// The state after a call of `nn`: the program counter is pushed.
    pub open spec fn call(self, nn: u16) -> CpuView {
        self.push(self.register.pc).with_pc(nn)
    }

    /// The state after a return: the program counter is popped.
    pub open spec fn ret(self) -> CpuView {
        self.popped().with_pc(self.top())
    }

    /// The state after instruction `i`, whose bytes the program counter has
    /// already passed, and the cycles that the instruction takes.
    #[verifier::opaque]
    pub open spec fn execute(self, i: Instr) -> (CpuView, int)
        recommends
            i.wf(),
    {
        let r = self.register;
        match i {
            Instr::Nop => (self, 4),
            Instr::Halt => (CpuView { halted: true, ..self }, 4),
            Instr::LdRN { r, n } => (self.write_r(r, n), if r == 6 { 12 } else { 8 }),
            Instr::LdRR { dst, src } => (
                self.write_r(dst, self.read_r(src)),
                if dst == 6 || src == 6 { 8 } else { 4 },
            ),
            Instr::LdMemA { nn } => (self.store(nn as int, r.a), 16),
            Instr::LdAMem { nn } => (self.with_a(self.memory.read(nn as int)), 16),
            Instr::LdCA => (self.store(0xff00 + r.c, r.a), 8),
            Instr::LdAC => (self.with_a(self.memory.read(0xff00 + r.c)), 8),
            Instr::LdhNA { n } => (self.store(0xff00 + n, r.a), 12),
            Instr::LdhAN { n } => (self.with_a(self.memory.read(0xff00 + n)), 12),
            Instr::LdIndA { p } => (self.store(self.indirect(p) as int, r.a).hl_stepped(p), 8),
            Instr::LdAInd { p } => (
                self.with_a(self.memory.read(self.indirect(p) as int)).hl_stepped(p),
                8,
            ),
            Instr::LdRpNN { p, nn } => (self.with_register(r.with_rp(p, nn)), 12),
            Instr::LdSpHl => (self.with_register(Register { sp: r.hl(), ..r }), 8),
            Instr::LdHlSpD { d } => (self.ld_hl_sp(d), 12),
            Instr::LdMemSp { nn } => (
                CpuView { memory: self.memory.write_16(nn as int, r.sp), ..self },
                20,
            ),
            Instr::Push { p } => (self.push(r.rp2(p)), 16),
            Instr::Pop { p } => (self.popped().with_register(self.popped().register.with_rp2(p, self.top())), 12),
            Instr::AluN { op, n } => (self.alu(op, n), 8),
            Instr::AluR { op, r } => (self.alu(op, self.read_r(r)), if r == 6 { 8 } else { 4 }),
            Instr::IncR { r } => (self.inc_r(r), if r == 6 { 12 } else { 4 }),
            Instr::DecR { r } => (self.dec_r(r), if r == 6 { 12 } else { 4 }),
            Instr::AddHlRp { p } => (self.add_hl(p), 8),
            Instr::AddSpD { d } => (self.add_sp(d), 16),
            Instr::IncRp { p } => (self.with_register(r.with_rp(p, advanced(r.rp(p), 1))), 8),
            Instr::DecRp { p } => (self.with_register(r.with_rp(p, advanced(r.rp(p), -1))), 8),
            Instr::Daa => (self.daa(), 4),
            Instr::Cpl => (self.cpl(), 4),
            Instr::Ccf => (self.ccf(), 4),
            Instr::Scf => (self.scf(), 4),
            Instr::Di => (
                CpuView { interrupt: Interrupt { delayed_disable: 2, ..self.interrupt }, ..self },
                4,
            ),
            Instr::Ei => (
                CpuView { interrupt: Interrupt { delayed_enable: 2, ..self.interrupt }, ..self },
                4,
            ),
            Instr::RotA { op } => (self.rot_a(op), 4),
            Instr::Jp { nn } => (self.with_pc(nn), 16),
            Instr::JpCc { cc, nn } => (
                self.jump_if(self.condition(cc), nn),
                if self.condition(cc) { 16 } else { 12 },
            ),
            Instr::JpHl => (self.with_pc(r.hl()), 4),
            Instr::Jr { d } => (self.with_pc(displaced(r.pc, d)), 12),
            Instr::JrCc { cc, d } => (
                self.jump_if(self.condition(cc), displaced(r.pc, d)),
                if self.condition(cc) { 12 } else { 8 },
            ),
            Instr::Call { nn } => (self.call(nn), 24),
            Instr::CallCc { cc, nn } => if self.condition(cc) {
                (self.call(nn), 24)
            } else {
                (self, 12)
            },
            Instr::Rst { y } => (self.call((y * 8) as u16), 16),
            Instr::Ret => (self.ret(), 16),
            Instr::RetCc { cc } => if self.condition(cc) {
                (self.ret(), 20)
            } else {
                (self, 8)
            },
            Instr::Reti => (
                CpuView { interrupt: Interrupt { master: true, ..self.interrupt }, ..self.ret() },
                16,
            ),
            Instr::Rot { op, r } => (self.rot(op, r), if r == 6 { 16 } else { 8 }),
            Instr::TestBit { b, r } => (self.test_bit(b, r), if r == 6 { 12 } else { 8 }),
            Instr::ResetBit { b, r } => (self.reset_bit(b, r), if r == 6 { 16 } else { 8 }),
            Instr::SetBit { b, r } => (self.set_bit(b, r), if r == 6 { 16 } else { 8 }),
        }
    }

    /// The byte at the program counter.
    pub open spec fn opcode(self) -> u8 {
        self.memory.read(self.register.pc as int)
    }

    /// The instruction at the program counter, if its opcode is supported.
    pub open spec fn fetch(self) -> Option<Instr> {
        let at = advanced(self.register.pc, 1) as int;
        decode(self.opcode(), self.memory.read(at), self.memory.read_16(at))
    }

    /// The state after the instruction at the program counter, and the
    /// cycles that it takes.
    pub open spec fn exec(self) -> (CpuView, int)
        recommends
            self.fetch() is Some,
    {
        match self.fetch() {
            Some(i) => self.with_pc(advanced(self.register.pc, 1 + i.operand_bytes())).execute(i),
            None => (self, 0),
        }
    }

    /// What the start of a step does about interrupts, and the cycles that
    /// it takes. The delayed enable and disable count down. A source that is
    /// both enabled and flagged ends a halt. With IME set, the pending source
    /// of highest priority is serviced: its bit in IF and IME are cleared, the
    /// program counter is pushed and set to the source's vector, in 16
    /// cycles. Else no cycle goes by.
    pub open spec fn interrupt_step(self) -> (CpuView, int) {
        let interrupt = self.interrupt.delays_updated();
        let enable = self.memory.interrupt_enable;
        let flag = self.memory.interrupt_flag;
        let s = CpuView {
            interrupt: interrupt.stepped(enable, flag),
            halted: self.halted && pending(enable, flag) is None,
            ..self
        };
        match interrupt.serviced(enable, flag) {
            Some(source) => (
                s.store(0xff0f, interrupt.flag_after(enable, flag)).call(source.vector_of()),
                16,
            ),
            None => (s, 0),
        }
    }

    /// Whether a step can be made: it services an interrupt, or idles in a
    /// halt, or finds a supported opcode at the program counter.
    #[verifier::opaque]
    pub open spec fn can_step(self) -> bool {
        let (s, cycles) = self.interrupt_step();
        cycles != 0 || s.halted || s.fetch() is Some
    }

    /// The state after one step, and the cycles that it takes: 16 for a
    /// serviced interrupt, 4 for an idle tick while halted, else those of the
    /// instruction at the program counter.
    #[verifier::opaque]
    pub open spec fn step(self) -> (CpuView, int)
        recommends
            self.can_step(),
    {
        let (s, cycles) = self.interrupt_step();
        if cycles != 0 {
            (s, cycles)
        } else if s.halted {
            (s, 4)
        } else {
            s.exec()
        }
    }

    /// The state after one step and the time that it takes: the timer moves
    /// on by the cycles of the step, and may raise its interrupt flag for the
    /// steps to come.
    pub open spec fn tick(self) -> (CpuView, int)
        recommends
            self.can_step(),
    {
        let (s, cycles) = self.step();
        (CpuView { memory: s.memory.step(cycles), ..s }, cycles)
    }

    /// The state after as many steps, each with its time, as it takes for
    /// `budget` cycles to go by, and the cycles that went by. Where a step
    /// cannot be made, the run ends before that step.
    pub open spec fn run(self, budget: nat) -> (CpuView, int)
        decreases budget,
    {
        if budget == 0 || !self.can_step() {
            (self, 0)
        } else {
            proof {
                lemma_step_cycles(self);
            }
            let (s, cycles) = self.tick();
            let (t, rest) = s.run(if budget > cycles { (budget - cycles) as nat } else { 0 });
            (t, cycles + rest)
        }
    }
}

/// Writing a byte or a word to memory keeps the state well-formed.
pub proof fn lemma_store_wf(s: CpuView, address: int, n: u8, nn: u16)
    requires
        s.wf(),
    ensures
        s.store(address, n).wf(),
        s.write_r(6, n).wf(),
        s.push(nn).wf(),
        s.memory.write_16(address, nn).wf(),
{
    lemma_write_frame(s.memory, address, n, 0);
    lemma_write_frame(s.memory, s.register.hl() as int, n, 0);
    lemma_write_frame(s.memory, address, low_byte(nn), 0);
    lemma_write_frame(s.memory.write(address, low_byte(nn)), next_address(address), high_byte(nn), 0);
    let sp = advanced(s.register.sp, -2) as int;
    lemma_write_frame(s.memory, sp, low_byte(nn), 0);
    lemma_write_frame(s.memory.write(sp, low_byte(nn)), next_address(sp), high_byte(nn), 0);
}

/// Loads, stores, PUSH and POP leave the state well-formed.
proof fn lemma_loads_wf(s: CpuView, i: Instr)
    requires
        s.wf(),
        i.wf(),
        i.is_load(),
    ensures
        s.execute(i).0.wf(),
{
    lemma_registers_wf();
    reveal(CpuView::execute);
    match i {
        Instr::LdRN { r, n } => lemma_store_wf(s, 0, n, 0),
        Instr::LdRR { dst, src } => lemma_store_wf(s, 0, s.read_r(src), 0),
        Instr::LdMemA { nn } => lemma_store_wf(s, nn as int, s.register.a, 0),
        Instr::LdCA => lemma_store_wf(s, 0xff00 + s.register.c, s.register.a, 0),
        Instr::LdhNA { n } => lemma_store_wf(s, 0xff00 + n, s.register.a, 0),
        Instr::LdIndA { p } => lemma_store_wf(s, s.indirect(p) as int, s.register.a, 0),
        Instr::LdMemSp { nn } => lemma_store_wf(s, nn as int, 0, s.register.sp),
        Instr::Push { p } => lemma_store_wf(s, 0, 0, s.register.rp2(p)),
        _ => {},
    }
}

/// Arithmetic on A leaves the state well-formed.
proof fn lemma_accumulator_wf(s: CpuView, i: Instr)
    requires
        s.wf(),
        i.wf(),
        i is AluN || i is AluR || i is Daa || i is Cpl || i is Ccf || i is Scf || i is RotA,
    ensures
        s.execute(i).0.wf(),
{
    lemma_registers_wf();
    reveal(CpuView::execute);
}

/// Arithmetic on the 8-bit operands and on the pairs leaves the state
/// well-formed.
proof fn lemma_operands_wf(s: CpuView, i: Instr)
    requires
        s.wf(),
        i.wf(),
        i is IncR || i is DecR || i is AddHlRp || i is AddSpD || i is LdHlSpD || i is IncRp || i is DecRp,
    ensures
        s.execute(i).0.wf(),
{
    lemma_registers_wf();
    reveal(CpuView::execute);
    match i {
        Instr::IncR { r } => lemma_store_wf(s, 0, ((s.read_r(r) + 1) % 256) as u8, 0),
        Instr::DecR { r } => lemma_store_wf(s, 0, ((s.read_r(r) - 1) % 256) as u8, 0),
        _ => {},
    }
}

/// Arithmetic leaves the state well-formed.
proof fn lemma_arithmetic_wf(s: CpuView, i: Instr)
    requires
        s.wf(),
        i.wf(),
        i.is_arithmetic(),
    ensures
        s.execute(i).0.wf(),
{
    if i is AluN || i is AluR || i is Daa || i is Cpl || i is Ccf || i is Scf || i is RotA {
        lemma_accumulator_wf(s, i);
    } else {
        lemma_operands_wf(s, i);
    }
}

/// Jumps, calls, returns and the instructions on the processor's own state
/// leave the state well-formed.
proof fn lemma_control_wf(s: CpuView, i: Instr)
    requires
        s.wf(),
        i.wf(),
        i.is_control(),
    ensures
        s.execute(i).0.wf(),
{
    lemma_registers_wf();
    reveal(CpuView::execute);
    lemma_store_wf(s, 0, 0, s.register.pc);
}

/// The instructions of the second table leave the state well-formed.
proof fn lemma_alt_wf(s: CpuView, i: Instr)
    requires
        s.wf(),
        i.wf(),
        i.is_alt(),
    ensures
        s.execute(i).0.wf(),
{
    lemma_registers_wf();
    reveal(CpuView::execute);
    match i {
        Instr::Rot { op, r } => lemma_store_wf(s, 0, rot_of(op, s.read_r(r), s.register.carry()).0, 0),
        Instr::ResetBit { b, r } => lemma_store_wf(s, 0, with_bit_clear(s.read_r(r), bit_weight(b)), 0),
        Instr::SetBit { b, r } => lemma_store_wf(s, 0, with_bit_set(s.read_r(r), bit_weight(b)), 0),
        _ => {},
    }
}

/// Every instruction leaves the state well-formed: the low nibble of F is
/// zero after it as before.
pub proof fn lemma_execute_wf(s: CpuView, i: Instr)
    requires
        s.wf(),
        i.wf(),
    ensures
        s.execute(i).0.wf(),
{
    if i.is_load() {
        lemma_loads_wf(s, i);
    } else if i.is_arithmetic() {
        lemma_arithmetic_wf(s, i);
    } else if i.is_alt() {
        lemma_alt_wf(s, i);
    } else {
        lemma_control_wf(s, i);
    }
}

/// Every step leaves the state well-formed.
pub proof fn lemma_step_wf(s: CpuView)
    requires
        s.wf(),
        s.can_step(),
    ensures
        s.step().0.wf(),
{
    reveal(CpuView::step);
    reveal(CpuView::can_step);
    let (t, cycles) = s.interrupt_step();
    let enable = s.memory.interrupt_enable;
    let flag = s.memory.interrupt_flag;
    let interrupt = s.interrupt.delays_updated();
    let u = CpuView {
        interrupt: interrupt.stepped(enable, flag),
        halted: s.halted && pending(enable, flag) is None,
        ..s
    };
    lemma_store_wf(u, 0xff0f, interrupt.flag_after(enable, flag), 0);
    lemma_store_wf(u.store(0xff0f, interrupt.flag_after(enable, flag)), 0, 0, s.register.pc);
    if cycles == 0 && !t.halted {
        let at = advanced(t.register.pc, 1) as int;
        lemma_decode_supported(t.opcode(), t.memory.read(at), t.memory.read_16(at));
        let i = t.fetch()->Some_0;
        lemma_execute_wf(t.with_pc(advanced(t.register.pc, 1 + i.operand_bytes())), i);
    }
}

/// Every run leaves the state well-formed, however many steps it makes.
pub proof fn lemma_run_wf(s: CpuView, budget: nat)
    requires
        s.wf(),
    ensures
        s.run(budget).0.wf(),
    decreases budget,
{
    if budget != 0 && s.can_step() {
        lemma_step_wf(s);
        lemma_step_cycles(s);
        let (t, cycles) = s.tick();
        lemma_run_wf(t, if budget > cycles { (budget - cycles) as nat } else { 0 });
    }
}

/// Every instruction takes at least 4 and at most 24 cycles.
pub proof fn lemma_execute_cycles(s: CpuView, i: Instr)
    ensures
        4 <= s.execute(i).1 <= 24,
{
    reveal(CpuView::execute);
}

/// Every step takes at least 4 and at most 24 cycles.
pub proof fn lemma_step_cycles(s: CpuView)
    requires
        s.can_step(),
    ensures
        4 <= s.step().1 <= 24,
{
    reveal(CpuView::step);
    reveal(CpuView::can_step);
    let (t, cycles) = s.interrupt_step();
    if cycles == 0 && !t.halted {
        let i = t.fetch()->Some_0;
        lemma_execute_cycles(t.with_pc(advanced(t.register.pc, 1 + i.operand_bytes())), i);
    }
}

/// The address below SP by two is followed by the address below SP by one.
proof fn lemma_stack_slot(sp: u16)
    ensures
        next_address(advanced(sp, -2) as int) == advanced(sp, -1),
        advanced(advanced(sp, -2), 2) == sp,
{
}

/// A pushed word is on top of the stack, and taking it off brings SP back,
/// unless a byte of the stack slot is the divider at 0xFF04.
pub proof fn lemma_push_top(s: CpuView, n: u16)
    requires
        s.wf(),
        advanced(s.register.sp, -1) != 0xff04,
        advanced(s.register.sp, -2) != 0xff04,
    ensures
        s.push(n).wf(),
        s.push(n).top() == n,
        s.push(n).popped().register == s.register,
{
    let sp = advanced(s.register.sp, -2);
    lemma_stack_slot(s.register.sp);
    lemma_write_16_then_read_16(s.memory, sp as int, n);
}

/// What is pushed is popped again: after PUSH of pair `p` and POP into pair
/// `q`, pair `q` holds what pair `p` held, and SP is where it was. This needs
/// that neither byte of the stack slot is the divider at 0xFF04, which no
/// write can set, and, where the POP goes into AF, that the low nibble of
/// the value is zero, as F keeps no other.
pub proof fn lemma_push_pop(s: CpuView, p: u8, q: u8)
    requires
        s.wf(),
        p < 4,
        q < 4,
        advanced(s.register.sp, -1) != 0xff04,
        advanced(s.register.sp, -2) != 0xff04,
        q == 3 ==> s.register.rp2(p) % 16 == 0,
    ensures
        s.execute(Instr::Push { p }).0.execute(Instr::Pop { p: q }).0.register.rp2(q) == s.register.rp2(p),
        s.execute(Instr::Push { p }).0.execute(Instr::Pop { p: q }).0.register.sp == s.register.sp,
{
    reveal(CpuView::execute);
    let n = s.register.rp2(p);
    let pushed = s.push(n);
    lemma_push_top(s, n);
    assert(s.execute(Instr::Push { p }).0 == pushed);
    let after = pushed.popped().with_register(pushed.popped().register.with_rp2(q, n));
    assert(pushed.execute(Instr::Pop { p: q }).0 == after);
    assert(after.register == s.register.with_rp2(q, n));
    lemma_pair_written(s.register, q, n);
}

/// A pair that is written holds what was written, but that AF keeps only
/// the upper nibble of its low byte; SP is touched by no pair of the
/// grouping BC, DE, HL, AF.
pub proof fn lemma_pair_written(r: Register, q: u8, n: u16)
    requires
        q < 4,
        q == 3 ==> n % 16 == 0,
    ensures
        r.with_rp2(q, n).rp2(q) == n,
        r.with_rp2(q, n).sp == r.sp,
{
}

/// A call returns to where it came from: after CALL and RET the program
/// counter is again behind the CALL, and SP is where it was. This needs that
/// neither byte of the stack slot is the divider at 0xFF04.
pub proof fn lemma_call_ret(s: CpuView, nn: u16)
    requires
        s.wf(),
        advanced(s.register.sp, -1) != 0xff04,
        advanced(s.register.sp, -2) != 0xff04,
    ensures
        s.execute(Instr::Call { nn }).0.execute(Instr::Ret).0.register.pc == s.register.pc,
        s.execute(Instr::Call { nn }).0.execute(Instr::Ret).0.register.sp == s.register.sp,
{
    reveal(CpuView::execute);
    let pushed = s.push(s.register.pc);
    lemma_push_top(s, s.register.pc);
    let called = pushed.with_pc(nn);
    assert(s.execute(Instr::Call { nn }).0 == called);
    assert(called.top() == pushed.top());
    assert(called.popped().register.sp == pushed.popped().register.sp);
    assert(called.execute(Instr::Ret).0 == called.popped().with_pc(called.top()));
}

/// A byte goes from memory through A into B unchanged: after LD A,(nn) and
/// LD B,A, B holds what memory held at `nn`.
pub proof fn lemma_load_through_a(s: CpuView, nn: u16)
    ensures
        s.execute(Instr::LdAMem { nn }).0.execute(Instr::LdRR { dst: 0, src: 7 }).0.register.b
            == s.memory.read(nn as int),
{
    reveal(CpuView::execute);
}

/// SUB A,A leaves zero in A, with Z and N set and H and C clear, whatever A
/// was.
pub proof fn lemma_sub_a_a(s: CpuView)
    ensures
        s.execute(Instr::AluR { op: 2, r: 7 }).1 == 4,
        s.execute(Instr::AluR { op: 2, r: 7 }).0.register.a == 0,
        s.execute(Instr::AluR { op: 2, r: 7 }).0.register.f == 0xc0,
{
    reveal(alu_of);
    reveal(CpuView::execute);
}

/// XOR A,A leaves zero in A, with Z set and N, H and C clear, whatever A was.
pub proof fn lemma_xor_a_a(s: CpuView)
    ensures
        s.execute(Instr::AluR { op: 5, r: 7 }).1 == 4,
        s.execute(Instr::AluR { op: 5, r: 7 }).0.register.a == 0,
        s.execute(Instr::AluR { op: 5, r: 7 }).0.register.f == 0x80,
{
    reveal(alu_of);
    reveal(CpuView::execute);
    let a = s.register.a;
    assert(a ^ a == 0) by (bit_vector);
}

/// INC (HL) takes 12 cycles, sets Z, N and H by the result and leaves C as
/// it was; the byte at HL is one more than before, 0xFF becoming 0, unless
/// HL points to the divider at 0xFF04.
pub proof fn lemma_inc_hl(s: CpuView)
    requires
        s.wf(),
    ensures
        s.execute(Instr::IncR { r: 6 }).1 == 12,
        s.execute(Instr::IncR { r: 6 }).0.register.carry() == s.register.carry(),
        s.execute(Instr::IncR { r: 6 }).0.register.zero() == (s.read_r(6) == 0xff),
        !s.execute(Instr::IncR { r: 6 }).0.register.negative(),
        s.execute(Instr::IncR { r: 6 }).0.register.half_carry() == (s.read_r(6) % 16 == 15),
        s.register.hl() != 0xff04 ==> s.execute(Instr::IncR { r: 6 }).0.read_r(6) == (s.read_r(6) + 1) % 256,
{
    reveal(CpuView::execute);
    let n = s.read_r(6);
    let result = ((n + 1) % 256) as u8;
    let hl = s.register.hl();
    let stored = s.store(hl as int, result);
    assert(s.write_r(6, result) == stored);
    let flags = s.register.with_flags(result == 0, false, n % 16 == 15, s.register.carry());
    let after = stored.with_register(flags);
    assert(s.inc_r(6) == after);
    assert(s.execute(Instr::IncR { r: 6 }) == (after, 12int));
    lemma_flags_byte(s.register, result == 0, false, n % 16 == 15, s.register.carry());
    assert(flags.hl() == hl);
    if hl != 0xff04 {
        lemma_write_then_read(s.memory, hl as int, result);
        assert(after.read_r(6) == after.memory.read(hl as int));
    }
}

} // verus!
