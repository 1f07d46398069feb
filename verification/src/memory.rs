//! The memory router: one 16-bit address space over the cartridge, video
//! RAM, external and work RAM with its echo, sprite memory, the I/O
//! registers, the timer, high RAM and the two interrupt bytes.

use vstd::prelude::*;
use crate::gpu::{pixel_of, PixelGrayScale, GPU, TILE_COUNT};
use crate::timer::{Timer, TimerView, TIMER_INTERRUPT};
use crate::utils::{
    high_byte, join_8_to_16_lsf, low_byte, split_16_to_8_lsf, with_bit_set, word_of,
};

verus! {

/// Least number of bytes in a cartridge image.
pub const CART_SIZE: usize = 0x8000;

/// Bytes of external RAM, and of work RAM.
pub const RAM_SIZE: usize = 0x2000;

/// Bytes of sprite memory.
pub const OAM_SIZE: usize = 0x100;

/// Bytes of I/O registers, the timer's and IF among them.
pub const IO_SIZE: usize = 0x80;

/// Bytes of high RAM.
pub const HRAM_SIZE: usize = 0x7f;

/// Address of the interrupt-flag byte IF.
pub const IF_ADDR: usize = 0xff0f;

/// Address of the interrupt-enable byte IE.
pub const IE_ADDR: usize = 0xffff;

const STACK_OFFSET: usize = 0xff80;

pub struct Memory {
    cart: Vec<u8>,
    gpu: GPU,
    switchable_ram: Vec<u8>,
    ram: Vec<u8>,
    oam: Vec<u8>,
    io_port: Vec<u8>,
    stack: Vec<u8>,
    pub interrupt_enable: u8,
    pub interrupt_flag: u8,
    timer: Timer,
}

/// What the memory holds, region by region.
pub struct MemoryView {
    pub cart: Seq<u8>,
    pub vram: Seq<u8>,
    pub switchable_ram: Seq<u8>,
    pub ram: Seq<u8>,
    pub oam: Seq<u8>,
    pub io_port: Seq<u8>,
    pub stack: Seq<u8>,
    pub interrupt_enable: u8,
    pub interrupt_flag: u8,
    pub timer: TimerView,
}

/// The address that follows `i`; after 0xFFFF comes 0.
pub open spec fn next_address(i: int) -> int {
    if 0 <= i < 0xffff {
        i + 1
    } else if i == 0xffff {
        0
    } else {
        i
    }
}

/// The address under which the byte at `i` is stored: the echo region
/// stands for work RAM.
pub open spec fn canonical(i: int) -> int {
    if 0xe000 <= i <= 0xfdff {
        i - 0x2000
    } else {
        i
    }
}

impl MemoryView {
    /// Memory after reset around the cartridge image `cart`: all RAM zero.
    pub open spec fn initial(cart: Seq<u8>) -> MemoryView {
        MemoryView {
            cart,
            vram: Seq::new(0x2000, |i: int| 0u8),
            switchable_ram: Seq::new(RAM_SIZE as nat, |i: int| 0u8),
            ram: Seq::new(RAM_SIZE as nat, |i: int| 0u8),
            oam: Seq::new(OAM_SIZE as nat, |i: int| 0u8),
            io_port: Seq::new(IO_SIZE as nat, |i: int| 0u8),
            stack: Seq::new(HRAM_SIZE as nat, |i: int| 0u8),
            interrupt_enable: 0,
            interrupt_flag: 0,
            timer: TimerView::initial(),
        }
    }

    pub open spec fn wf(self) -> bool {
        &&& self.cart.len() >= CART_SIZE
        &&& self.vram.len() == 0x2000
        &&& self.switchable_ram.len() == RAM_SIZE
        &&& self.ram.len() == RAM_SIZE
        &&& self.oam.len() == OAM_SIZE
        &&& self.io_port.len() == IO_SIZE
        &&& self.stack.len() == HRAM_SIZE
        &&& self.timer.wf()
    }

    /// The byte that a read of address `i` gives. Outside the 16-bit address
    /// space every read gives 0xFF.
    pub open spec fn read(self, i: int) -> u8 {
        if 0 <= i <= 0x7fff {
            self.cart[i]
        } else if 0x8000 <= i <= 0x9fff {
            self.vram[i - 0x8000]
        } else if 0xa000 <= i <= 0xbfff {
            self.switchable_ram[i - 0xa000]
        } else if 0xc000 <= i <= 0xdfff {
            self.ram[i - 0xc000]
        } else if 0xe000 <= i <= 0xfdff {
            self.ram[i - 0xe000]
        } else if 0xfe00 <= i <= 0xfeff {
            self.oam[i - 0xfe00]
        } else if 0xff04 <= i <= 0xff07 {
            self.timer.read(i)
        } else if i == 0xff0f {
            self.interrupt_flag
        } else if 0xff00 <= i <= 0xff7f {
            self.io_port[i - 0xff00]
        } else if 0xff80 <= i <= 0xfffe {
            self.stack[i - 0xff80]
        } else if i == 0xffff {
            self.interrupt_enable
        } else {
            0xff
        }
    }

    /// The memory after `n` is written to address `i`. Outside the 16-bit
    /// address space a write changes nothing.
    pub open spec fn write(self, i: int, n: u8) -> MemoryView {
        if 0 <= i <= 0x7fff {
            MemoryView { cart: self.cart.update(i, n), ..self }
        } else if 0x8000 <= i <= 0x9fff {
            MemoryView { vram: self.vram.update(i - 0x8000, n), ..self }
        } else if 0xa000 <= i <= 0xbfff {
            MemoryView { switchable_ram: self.switchable_ram.update(i - 0xa000, n), ..self }
        } else if 0xc000 <= i <= 0xdfff {
            MemoryView { ram: self.ram.update(i - 0xc000, n), ..self }
        } else if 0xe000 <= i <= 0xfdff {
            MemoryView { ram: self.ram.update(i - 0xe000, n), ..self }
        } else if 0xfe00 <= i <= 0xfeff {
            MemoryView { oam: self.oam.update(i - 0xfe00, n), ..self }
        } else if 0xff04 <= i <= 0xff07 {
            MemoryView { timer: self.timer.write(i, n), ..self }
        } else if i == 0xff0f {
            MemoryView { interrupt_flag: n, ..self }
        } else if 0xff00 <= i <= 0xff7f {
            MemoryView { io_port: self.io_port.update(i - 0xff00, n), ..self }
        } else if 0xff80 <= i <= 0xfffe {
            MemoryView { stack: self.stack.update(i - 0xff80, n), ..self }
        } else if i == 0xffff {
            MemoryView { interrupt_enable: n, ..self }
        } else {
            self
        }
    }

    /// The word whose low byte is at `i` and whose high byte is at the
    /// address that follows.
    pub open spec fn read_16(self, i: int) -> u16 {
        word_of(self.read(next_address(i)), self.read(i))
    }

    /// The memory after the low byte of `n` is written to `i` and then its
    /// high byte to the address that follows.
    pub open spec fn write_16(self, i: int, n: u16) -> MemoryView {
        self.write(i, low_byte(n)).write(next_address(i), high_byte(n))
    }

    /// The memory `cycles` cycles later: the timer has advanced, and has
    /// raised its bit in IF if TIMA overflowed.
    pub open spec fn step(self, cycles: int) -> MemoryView {
        MemoryView {
            timer: self.timer.step(cycles),
            interrupt_flag: if self.timer.overflows(cycles) {
                with_bit_set(self.interrupt_flag, TIMER_INTERRUPT)
            } else {
                self.interrupt_flag
            },
            ..self
        }
    }
}

/// The address that follows `i`; after 0xFFFF comes 0.
pub fn address_after(i: usize) -> (r: usize)
    ensures
        r == next_address(i as int),
{
    if i < 0xffff {
        i + 1
    } else if i == 0xffff {
        0
    } else {
        i
    }
}

impl Memory {
    pub closed spec fn view(&self) -> MemoryView {
        MemoryView {
            cart: self.cart@,
            vram: self.gpu@,
            switchable_ram: self.switchable_ram@,
            ram: self.ram@,
            oam: self.oam@,
            io_port: self.io_port@,
            stack: self.stack@,
            interrupt_enable: self.interrupt_enable,
            interrupt_flag: self.interrupt_flag,
            timer: self.timer@,
        }
    }

    pub closed spec fn wf(&self) -> bool {
        &&& self@.wf()
        &&& self.gpu.wf()
        &&& self.timer.wf()
    }

    /// What a well-formed memory holds is well-formed.
    pub proof fn lemma_view_wf(&self)
        requires
            self.wf(),
        ensures
            self@.wf(),
    {
    }

    /// Memory around the cartridge image `cart`, which holds at least 32 KiB.
    pub fn new(cart: Vec<u8>) -> (m: Memory)
        requires
            cart.len() >= CART_SIZE,
        ensures
            m.wf(),
            m@ == MemoryView::initial(cart@),
    {
        let m = Memory {
            cart,
            gpu: GPU::new(),
            switchable_ram: vec![0; RAM_SIZE],
            ram: vec![0; RAM_SIZE],
            oam: vec![0; OAM_SIZE],
            io_port: vec![0; IO_SIZE],
            stack: vec![0; HRAM_SIZE],
            interrupt_enable: 0,
            interrupt_flag: 0,
            timer: Timer::new(),
        };
        proof {
            let v = MemoryView::initial(cart@);
            assert(m@.switchable_ram =~= v.switchable_ram);
            assert(m@.ram =~= v.ram);
            assert(m@.oam =~= v.oam);
            assert(m@.io_port =~= v.io_port);
            assert(m@.stack =~= v.stack);
            assert(m@.vram =~= v.vram);
        }
        m
    }

    pub fn read_8(&self, i: usize) -> (r: u8)
        requires
            self.wf(),
        ensures
            r == self@.read(i as int),
    {
        match i {
            0..=0x7fff => self.cart[i],
            0x8000..=0x9fff => self.gpu.read_vram(i - 0x8000),
            0xa000..=0xbfff => self.switchable_ram[i - 0xa000],
            0xc000..=0xdfff => self.ram[i - 0xc000],
            0xe000..=0xfdff => self.ram[i - 0xe000],
            0xfe00..=0xfeff => self.oam[i - 0xfe00],
            0xff04..=0xff07 => self.timer.read(i),
            0xff0f => self.interrupt_flag,
            0xff00..=0xff7f => self.io_port[i - 0xff00],
            0xff80..=0xfffe => self.stack[i - STACK_OFFSET],
            0xffff => self.interrupt_enable,
            _ => 0xff,
        }
    }

    pub fn write_8(&mut self, i: usize, n: u8)
        requires
            old(self).wf(),
        ensures
            final(self).wf(),
            final(self)@ == old(self)@.write(i as int, n),
    {
        match i {
            0..=0x7fff => self.cart.set(i, n),
            0x8000..=0x9fff => self.gpu.write_vram(i - 0x8000, n),
            0xa000..=0xbfff => self.switchable_ram.set(i - 0xa000, n),
            0xc000..=0xdfff => self.ram.set(i - 0xc000, n),
            0xe000..=0xfdff => self.ram.set(i - 0xe000, n),
            0xfe00..=0xfeff => self.oam.set(i - 0xfe00, n),
            0xff04..=0xff07 => self.timer.write(i, n),
            0xff0f => self.interrupt_flag = n,
            0xff00..=0xff7f => self.io_port.set(i - 0xff00, n),
            0xff80..=0xfffe => self.stack.set(i - STACK_OFFSET, n),
            0xffff => self.interrupt_enable = n,
            _ => {},
        }
    }

    /// The decoded shade of one pixel of the tile data, which follows every
    /// write to video RAM.
    pub fn tile_pixel(&self, tile: usize, row: usize, column: usize) -> (r: PixelGrayScale)
        requires
            self.wf(),
            tile < TILE_COUNT,
            row < 8,
            column < 8,
        ensures
            r == pixel_of(self@.vram, tile as int, row as int, column as int),
    {
        self.gpu.tile_pixel(tile, row, column)
    }

    pub fn read_16(&self, i: usize) -> (r: u16)
        requires
            self.wf(),
        ensures
            r == self@.read_16(i as int),
    {
        join_8_to_16_lsf(self.read_8(i), self.read_8(address_after(i)))
    }

    pub fn write_16(&mut self, i: usize, n: u16)
        requires
            old(self).wf(),
        ensures
            final(self).wf(),
            final(self)@ == old(self)@.write_16(i as int, n),
    {
        let ns = split_16_to_8_lsf(n);
        self.write_8(i, ns.0);
        self.write_8(address_after(i), ns.1);
    }

    /// Lets `cycles` cycles pass for the timer and the video hardware.
    pub fn step(&mut self, cycles: usize)
        requires
            old(self).wf(),
        ensures
            final(self).wf(),
            final(self)@ == old(self)@.step(cycles as int),
    {
        if self.timer.step(cycles) {
            self.interrupt_flag = Timer::update_interrupt_flag(&self.interrupt_flag);
        }
        self.gpu.step(cycles);
    }
}

/// A byte written to an address of the 16-bit address space is read back
/// from it, but for the divider at 0xFF04, which any write resets.
pub proof fn lemma_write_then_read(m: MemoryView, a: int, v: u8)
    requires
        m.wf(),
        0 <= a <= 0xffff,
        a != 0xff04,
    ensures
        m.write(a, v).read(a) == v,
{
}

/// A write keeps the memory well-formed and leaves every byte as it was that
/// is not stored under the address written to.
pub proof fn lemma_write_frame(m: MemoryView, a: int, v: u8, b: int)
    requires
        m.wf(),
    ensures
        m.write(a, v).wf(),
        canonical(b) != canonical(a) ==> m.write(a, v).read(b) == m.read(b),
{
}

/// A word written to an address of the 16-bit address space is read back
/// from it, unless one of its two bytes falls on the divider at 0xFF04.
pub proof fn lemma_write_16_then_read_16(m: MemoryView, a: int, v: u16)
    requires
        m.wf(),
        0 <= a <= 0xffff,
        a != 0xff04,
        next_address(a) != 0xff04,
    ensures
        m.write_16(a, v).wf(),
        m.write_16(a, v).read_16(a) == v,
{
    let b = next_address(a);
    let m1 = m.write(a, low_byte(v));
    lemma_write_frame(m, a, low_byte(v), b);
    lemma_write_then_read(m, a, low_byte(v));
    lemma_write_frame(m1, b, high_byte(v), a);
    lemma_write_then_read(m1, b, high_byte(v));
}

} // verus!
