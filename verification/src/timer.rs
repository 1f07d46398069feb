//! The timer: the free-running divider DIV, the counter TIMA with its reload
//! value TMA, and the control register TAC.

use vstd::prelude::*;
use crate::utils::{bit_of, lemma_single_bit, with_bit_set};

verus! {

/// Machine cycles per second.
pub const CLOCK_HZ: usize = 4194304;

/// Cycles between two increments of DIV (16384 Hz).
pub const DIV_PERIOD: usize = 256;

/// Address of DIV.
pub const DIV_ADDR: usize = 0xff04;

/// Address of TIMA.
pub const TIMA_ADDR: usize = 0xff05;

/// Address of TMA.
pub const TMA_ADDR: usize = 0xff06;

/// Address of TAC.
pub const TAC_ADDR: usize = 0xff07;

/// Weight of the timer's bit in the interrupt-flag byte.
pub const TIMER_INTERRUPT: u8 = 4;

pub struct Timer {
    divider: u8,
    counter: u8,
    modulo: u8,
    control: u8,
    div_clock: u16,
    tima_clock: u16,
}

/// What a timer holds: the four registers, and the cycles that have gone by
/// since DIV and TIMA last advanced.
pub struct TimerView {
    pub divider: u8,
    pub counter: u8,
    pub modulo: u8,
    pub control: u8,
    pub div_clock: int,
    pub tima_clock: int,
}

/// The rate in Hz that the two low bits of TAC select.
pub open spec fn frequency_of(i: int) -> int {
    if i == 0 {
        4096
    } else if i == 1 {
        262144
    } else if i == 2 {
        65536
    } else {
        16384
    }
}

/// TIMA after `ticks` increments: an increment of 0xFF reloads TMA.
pub open spec fn tima_after(counter: u8, modulo: u8, ticks: nat) -> u8
    decreases ticks,
{
    if ticks == 0 {
        counter
    } else {
        tima_after(
            if counter == 0xff {
                modulo
            } else {
                (counter + 1) as u8
            },
            modulo,
            (ticks - 1) as nat,
        )
    }
}

impl TimerView {
    /// A timer after reset.
    pub open spec fn initial() -> TimerView {
        TimerView { divider: 0, counter: 0, modulo: 0, control: 0, div_clock: 0, tima_clock: 0 }
    }

    pub open spec fn wf(self) -> bool {
        0 <= self.div_clock < 256 && 0 <= self.tima_clock < 1024
    }

    /// The register at address `i`.
    pub open spec fn read(self, i: int) -> u8
        recommends
            0xff04 <= i <= 0xff07,
    {
        if i == 0xff04 {
            self.divider
        } else if i == 0xff05 {
            self.counter
        } else if i == 0xff06 {
            self.modulo
        } else {
            self.control
        }
    }

    /// The timer after `n` is written to address `i`. Whatever is written to
    /// DIV, it becomes zero.
    pub open spec fn write(self, i: int, n: u8) -> TimerView
        recommends
            0xff04 <= i <= 0xff07,
    {
        if i == 0xff04 {
            TimerView { divider: 0, div_clock: 0, ..self }
        } else if i == 0xff05 {
            TimerView { counter: n, ..self }
        } else if i == 0xff06 {
            TimerView { modulo: n, ..self }
        } else {
            TimerView { control: n, ..self }
        }
    }

    /// Bit 2 of TAC switches TIMA on.
    pub open spec fn enabled(self) -> bool {
        bit_of(self.control, 4)
    }

    /// Cycles between two increments of TIMA.
    pub open spec fn period(self) -> int {
        CLOCK_HZ as int / frequency_of(self.control as int % 4)
    }

    /// Increments of TIMA that fall into the next `cycles` cycles.
    pub open spec fn ticks(self, cycles: int) -> nat {
        if self.enabled() {
            ((self.tima_clock + cycles) / self.period()) as nat
        } else {
            0
        }
    }

    /// Whether TIMA passes from 0xFF to its reload value in the next `cycles`
    /// cycles.
    pub open spec fn overflows(self, cycles: int) -> bool {
        self.counter + self.ticks(cycles) > 0xff
    }

    /// The timer `cycles` cycles later.
    pub open spec fn step(self, cycles: int) -> TimerView {
        TimerView {
            divider: ((self.divider + (self.div_clock + cycles) / 256) % 256) as u8,
            div_clock: (self.div_clock + cycles) % 256,
            counter: tima_after(self.counter, self.modulo, self.ticks(cycles)),
            tima_clock: if self.enabled() {
                (self.tima_clock + cycles) % self.period()
            } else {
                self.tima_clock
            },
            ..self
        }
    }
}

proof fn lemma_low_two_bits(x: u8)
    by (bit_vector)
    ensures
        x & 0x03 == x % 4,
{
}

impl Timer {
    pub closed spec fn view(&self) -> TimerView {
        TimerView {
            divider: self.divider,
            counter: self.counter,
            modulo: self.modulo,
            control: self.control,
            div_clock: self.div_clock as int,
            tima_clock: self.tima_clock as int,
        }
    }

    pub closed spec fn wf(&self) -> bool {
        self@.wf()
    }

    pub fn new() -> (t: Timer)
        ensures
            t.wf(),
            t@ == TimerView::initial(),
    {
        Timer { divider: 0, counter: 0, modulo: 0, control: 0, div_clock: 0, tima_clock: 0 }
    }

    pub fn read(&self, i: usize) -> (r: u8)
        requires
            0xff04 <= i <= 0xff07,
        ensures
            r == self@.read(i as int),
    {
        match i {
            0xff04 => self.divider,
            0xff05 => self.counter,
            0xff06 => self.modulo,
            _ => self.control,
        }
    }

    pub fn write(&mut self, i: usize, n: u8)
        requires
            old(self).wf(),
            0xff04 <= i <= 0xff07,
        ensures
            final(self).wf(),
            final(self)@ == old(self)@.write(i as int, n),
    {
        match i {
            0xff04 => {
                self.divider = 0;
                self.div_clock = 0;
            },
            0xff05 => self.counter = n,
            0xff06 => self.modulo = n,
            _ => self.control = n,
        }
    }

    /// The rate in Hz that TAC's low bits `i` select.
    pub fn frequency(i: usize) -> (f: usize)
        requires
            i < 4,
        ensures
            f == frequency_of(i as int),
    {
        match i {
            0b00 => 4096,
            0b01 => 262144,
            0b10 => 65536,
            _ => 16384,
        }
    }

    /// Advances the timer by `cycles` cycles and tells whether TIMA
    /// overflowed on the way.
    pub fn step(&mut self, cycles: usize) -> (overflow: bool)
        requires
            old(self).wf(),
        ensures
            final(self).wf(),
            final(self)@ == old(self)@.step(cycles as int),
            overflow == old(self)@.overflows(cycles as int),
    {
        let div_total: u128 = self.div_clock as u128 + cycles as u128;
        self.divider = ((self.divider as u128 + div_total / 256) % 256) as u8;
        self.div_clock = (div_total % 256) as u16;

        proof {
            lemma_single_bit(self.control, 4);
            lemma_low_two_bits(self.control);
        }
        let mut overflow = false;
        if self.control & 0x04 != 0 {
            let period: u128 = (CLOCK_HZ / Timer::frequency((self.control & 0x03) as usize)) as u128;
            let total: u128 = self.tima_clock as u128 + cycles as u128;
            let ticks: u128 = total / period;
            self.tima_clock = (total % period) as u16;
            let ghost start = self.counter;
            let mut done: u128 = 0;
            while done < ticks
                invariant
                    done <= ticks,
                    tima_after(self.counter, self.modulo, (ticks - done) as nat) == tima_after(
                        start,
                        self.modulo,
                        ticks as nat,
                    ),
                    overflow == (start + done > 0xff),
                    !overflow ==> self.counter == start + done,
                    self.modulo == old(self).modulo,
                    self.control == old(self).control,
                    self.divider == ((old(self).divider + (old(self).div_clock + cycles) / 256) % 256) as u8,
                    self.div_clock == (old(self).div_clock + cycles) % 256,
                    self.tima_clock == (old(self).tima_clock + cycles) % (period as int),
                    self.tima_clock < 1024,
                decreases ticks - done,
            {
                if self.counter == 0xff {
                    self.counter = self.modulo;
                    overflow = true;
                } else {
                    self.counter = self.counter + 1;
                }
                done = done + 1;
            }
        }
        overflow
    }

    /// The interrupt-flag byte `flags` with the timer's bit raised.
    pub fn update_interrupt_flag(flags: &u8) -> (r: u8)
        ensures
            r == with_bit_set(*flags, TIMER_INTERRUPT),
    {
        proof {
            lemma_single_bit(*flags, 4);
        }
        *flags | TIMER_INTERRUPT
    }
}

} // verus!
