//! The interrupt controller: the master enable IME with its delayed set and
//! clear, and the choice of the source to service among those that IE and IF
//! both name.

use vstd::prelude::*;
use crate::utils::{bit_of, lemma_single_bit, with_bit_clear};

verus! {

/// The controller's own state. IE and IF live in the memory map.
#[derive(Clone, Copy, Debug)]
pub struct Interrupt {
    /// IME.
    pub master: bool,
    /// Steps until IME is set; zero when no enable is under way.
    pub delayed_enable: u8,
    /// Steps until IME is cleared; zero when no disable is under way.
    pub delayed_disable: u8,
}

/// The five interrupt sources, highest priority first.
#[derive(Clone, Copy, Debug)]
pub enum Interrupts {
    VBlank,
    LCD,
    Timer,
    Transfer,
    Keypad,
}

impl Interrupts {
    /// The weight of the source's bit in IE and IF.
    pub open spec fn weight(self) -> u8 {
        match self {
            Interrupts::VBlank => 1,
            Interrupts::LCD => 2,
            Interrupts::Timer => 4,
            Interrupts::Transfer => 8,
            Interrupts::Keypad => 16,
        }
    }

    /// The address that the program counter is set to when the source is
    /// serviced.
    pub open spec fn vector_of(self) -> u16 {
        match self {
            Interrupts::VBlank => 0x40,
            Interrupts::LCD => 0x48,
            Interrupts::Timer => 0x50,
            Interrupts::Transfer => 0x58,
            Interrupts::Keypad => 0x60,
        }
    }

    pub fn mask(self) -> (m: u8)
        ensures
            m == self.weight(),
    {
        match self {
            Interrupts::VBlank => 0x01,
            Interrupts::LCD => 0x02,
            Interrupts::Timer => 0x04,
            Interrupts::Transfer => 0x08,
            Interrupts::Keypad => 0x10,
        }
    }

    pub fn vector(self) -> (v: u16)
        ensures
            v == self.vector_of(),
    {
        match self {
            Interrupts::VBlank => 0x40,
            Interrupts::LCD => 0x48,
            Interrupts::Timer => 0x50,
            Interrupts::Transfer => 0x58,
            Interrupts::Keypad => 0x60,
        }
    }
}

/// Whether `source` is both enabled in `enable` and flagged in `flag`.
pub open spec fn fired(enable: u8, flag: u8, source: Interrupts) -> bool {
    bit_of(enable, source.weight()) && bit_of(flag, source.weight())
}

/// The source of highest priority that has fired, if any has.
pub open spec fn pending(enable: u8, flag: u8) -> Option<Interrupts> {
    if fired(enable, flag, Interrupts::VBlank) {
        Some(Interrupts::VBlank)
    } else if fired(enable, flag, Interrupts::LCD) {
        Some(Interrupts::LCD)
    } else if fired(enable, flag, Interrupts::Timer) {
        Some(Interrupts::Timer)
    } else if fired(enable, flag, Interrupts::Transfer) {
        Some(Interrupts::Transfer)
    } else if fired(enable, flag, Interrupts::Keypad) {
        Some(Interrupts::Keypad)
    } else {
        None
    }
}

/// The counter `n` one step later.
pub open spec fn counted_down(n: u8) -> u8 {
    if n > 0 {
        (n - 1) as u8
    } else {
        0
    }
}

impl Interrupt {
    /// The controller after reset: interrupts enabled, nothing under way.
    pub open spec fn initial() -> Interrupt {
        Interrupt { master: true, delayed_enable: 0, delayed_disable: 0 }
    }

    /// The controller one step later: both counters go down by one, and one
    /// that reaches zero sets or clears IME. Where both reach zero in the same
    /// step, the disable wins.
    pub open spec fn delays_updated(self) -> Interrupt {
        Interrupt {
            master: if self.delayed_disable == 1 {
                false
            } else if self.delayed_enable == 1 {
                true
            } else {
                self.master
            },
            delayed_enable: counted_down(self.delayed_enable),
            delayed_disable: counted_down(self.delayed_disable),
        }
    }

    /// The source that is serviced now: the pending one of highest priority,
    /// and only with IME set.
    pub open spec fn serviced(self, enable: u8, flag: u8) -> Option<Interrupts> {
        if self.master {
            pending(enable, flag)
        } else {
            None
        }
    }

    /// The controller after the service decision: servicing clears IME.
    pub open spec fn stepped(self, enable: u8, flag: u8) -> Interrupt {
        if self.serviced(enable, flag) is Some {
            Interrupt { master: false, ..self }
        } else {
            self
        }
    }

    /// IF after the service decision: servicing a source clears its bit.
    pub open spec fn flag_after(self, enable: u8, flag: u8) -> u8 {
        match self.serviced(enable, flag) {
            Some(source) => with_bit_clear(flag, source.weight()),
            None => flag,
        }
    }

    pub fn new() -> (r: Interrupt)
        ensures
            r == Interrupt::initial(),
    {
        Interrupt { master: true, delayed_enable: 0, delayed_disable: 0 }
    }

    /// Counts the delayed enable and disable down by one step.
    pub fn update_delays(&mut self)
        ensures
            *final(self) == old(self).delays_updated(),
    {
        if self.delayed_enable > 0 {
            self.delayed_enable -= 1;
            if self.delayed_enable == 0 {
                self.master = true;
            }
        }
        if self.delayed_disable > 0 {
            self.delayed_disable -= 1;
            if self.delayed_disable == 0 {
                self.master = false;
            }
        }
    }

    /// Whether any of the five sources is both enabled and flagged.
    pub fn is_pending(enable: u8, flag: u8) -> (b: bool)
        ensures
            b == (pending(enable, flag) is Some),
    {
        proof {
            reveal(bit_of);
            lemma_fired(enable, flag);
        }
        enable & flag & 0x1f != 0
    }

    /// Decides whether an interrupt is serviced now, given IE and IF. If so,
    /// clears IME and the source's bit in `flag`, and returns the source.
    pub fn step(&mut self, enable: u8, flag: &mut u8) -> (r: Option<Interrupts>)
        ensures
            r == old(self).serviced(enable, *old(flag)),
            *final(self) == old(self).stepped(enable, *old(flag)),
            *final(flag) == old(self).flag_after(enable, *old(flag)),
    {
        proof {
            reveal(bit_of);
            lemma_fired(enable, *flag);
        }
        if self.master && enable != 0 && *flag != 0 {
            let fired = enable & *flag;

            if fired & Interrupts::VBlank.mask() != 0 {
                Interrupt::acknowledge(flag, Interrupts::VBlank);
                self.master = false;
                return Some(Interrupts::VBlank);
            }
            if fired & Interrupts::LCD.mask() != 0 {
                Interrupt::acknowledge(flag, Interrupts::LCD);
                self.master = false;
                return Some(Interrupts::LCD);
            }
            if fired & Interrupts::Timer.mask() != 0 {
                Interrupt::acknowledge(flag, Interrupts::Timer);
                self.master = false;
                return Some(Interrupts::Timer);
            }
            if fired & Interrupts::Transfer.mask() != 0 {
                Interrupt::acknowledge(flag, Interrupts::Transfer);
                self.master = false;
                return Some(Interrupts::Transfer);
            }
            if fired & Interrupts::Keypad.mask() != 0 {
                Interrupt::acknowledge(flag, Interrupts::Keypad);
                self.master = false;
                return Some(Interrupts::Keypad);
            }
        }
        None
    }

    /// Clears the bit of `source` in `flag`.
    fn acknowledge(flag: &mut u8, source: Interrupts)
        ensures
            *final(flag) == with_bit_clear(*old(flag), source.weight()),
    {
        let m = source.mask();
        proof {
            lemma_single_bit(*flag, m);
        }
        *flag &= !m;
    }
}

proof fn lemma_fired(enable: u8, flag: u8)
    by (bit_vector)
    ensures
        (enable & flag & 0x01 != 0) == ((enable / 1) % 2 == 1 && (flag / 1) % 2 == 1),
        (enable & flag & 0x02 != 0) == ((enable / 2) % 2 == 1 && (flag / 2) % 2 == 1),
        (enable & flag & 0x04 != 0) == ((enable / 4) % 2 == 1 && (flag / 4) % 2 == 1),
        (enable & flag & 0x08 != 0) == ((enable / 8) % 2 == 1 && (flag / 8) % 2 == 1),
        (enable & flag & 0x10 != 0) == ((enable / 16) % 2 == 1 && (flag / 16) % 2 == 1),
        (enable & flag & 0x1f != 0) == (enable & flag & 0x01 != 0 || enable & flag & 0x02 != 0 || enable & flag
            & 0x04 != 0 || enable & flag & 0x08 != 0 || enable & flag & 0x10 != 0),
        (enable == 0 || flag == 0) ==> enable & flag == 0,
        enable & flag == 0 ==> enable & flag & 0x1f == 0,
{
}

} // verus!
