//! MOS 6532 RIOT (RAM-I/O-Timer) — the "PIA" of the Atari 2600.
//!
//! Provides 128 bytes of RAM ($80–$FF, mirrored at $180–$1FF), two 8-bit I/O
//! ports with data direction registers, and an interval timer with a
//! selectable prescaler.
//!
//! Address decoding (active bits A0–A4, active at $280–$29F with mirrors):
//!   $280 SWCHA   — Port A data (read: pins & ~DDR | output & DDR)
//!   $281 SWACNT  — Port A data direction (0=input, 1=output)
//!   $282 SWCHB   — Port B data
//!   $283 SWBCNT  — Port B data direction
//!   $284 INTIM   — Timer output (read)
//!   $285 INSTAT  — Timer interrupt status (read, bit 7 = underflow)
//!   $294 TIM1T   — Set 1-clock interval (write)
//!   $295 TIM8T   — Set 8-clock interval (write)
//!   $296 TIM64T  — Set 64-clock interval (write)
//!   $297 T1024T  — Set 1024-clock interval (write)
use vstd::prelude::*;
use vstd::array::{spec_array_update, spec_array_fill_for_copy_type};

verus! {

#[derive(Debug)]
pub struct Pia {
    /// 128 bytes of internal RAM.
    pub ram: [u8; 128],
    // I/O ports
    pub port_a_output: u8,
    pub port_a_ddr: u8,
    pub port_a_input: u8,
    pub port_b_output: u8,
    pub port_b_ddr: u8,
    pub port_b_input: u8,
    // Timer
    pub timer_value: u16,
    pub timer_prescaler: u16,
    pub timer_prescaler_select: u16,
    pub timer_underflow: bool,
}

/// Prescaler interval selected by the low two address bits of a timer write.
pub open spec fn interval_of(addr: u16) -> u16 {
    if addr % 4 == 0 {
        1
    } else if addr % 4 == 1 {
        8
    } else if addr % 4 == 2 {
        64
    } else {
        1024
    }
}

impl Pia {
    /// Power-on state: RAM clear, joystick and console-switch inputs idle.
    pub open spec fn spec_new() -> Pia {
        Pia {
            ram: spec_array_fill_for_copy_type::<u8, 128>(0),
            port_a_output: 0,
            port_a_ddr: 0,
            port_a_input: 0xFF,
            port_b_output: 0,
            port_b_ddr: 0,
            port_b_input: 0x3F,
            timer_value: 0,
            timer_prescaler: 1,
            timer_prescaler_select: 1,
            timer_underflow: false,
        }
    }

    /// Timer invariant: a valid interval, an 8-bit count, and a prescaler
    /// within the interval.
    pub open spec fn wf(self) -> bool {
        &&& (self.timer_prescaler_select == 1 || self.timer_prescaler_select == 8
            || self.timer_prescaler_select == 64 || self.timer_prescaler_select == 1024)
        &&& self.timer_value <= 255
        &&& self.timer_prescaler <= self.timer_prescaler_select
    }

    /// States in which single-cycle ticking is defined: a valid timer whose
    /// prescaler has at least one cycle left.
    pub open spec fn tick_ready(self) -> bool {
        self.wf() && self.timer_prescaler >= 1
    }

    /// One CPU cycle of the interval timer.
    pub open spec fn spec_tick(self) -> Pia {
        if self.timer_value == 0 && self.timer_underflow {
            Pia { timer_value: 0xFF, ..self }
        } else {
            let p = (self.timer_prescaler - 1) as u16;
            if p == 0 {
                let np: u16 = if self.timer_underflow {
                    1
                } else {
                    self.timer_prescaler_select
                };
                if self.timer_value == 0 {
                    Pia { timer_prescaler: 1, timer_underflow: true, timer_value: 0xFF, ..self }
                } else {
                    Pia {
                        timer_prescaler: np,
                        timer_value: (self.timer_value - 1) as u16,
                        ..self
                    }
                }
            } else {
                Pia { timer_prescaler: p, ..self }
            }
        }
    }

    /// `n` single-cycle ticks in a row.
    pub open spec fn spec_ticks(self, n: nat) -> Pia
        decreases n,
    {
        if n == 0 {
            self
        } else {
            self.spec_tick().spec_ticks((n - 1) as nat)
        }
    }

    /// The value a CPU read of `addr` returns.
    pub open spec fn spec_read(self, addr: u16) -> u8 {
        if addr & 0x200 == 0 {
            self.ram[(addr & 0x7F) as int]
        } else {
            let r = addr & 0x07;
            if r == 0 {
                (self.port_a_input & !self.port_a_ddr) | (self.port_a_output & self.port_a_ddr)
            } else if r == 1 {
                self.port_a_ddr
            } else if r == 2 {
                (self.port_b_input & !self.port_b_ddr) | (self.port_b_output & self.port_b_ddr)
            } else if r == 3 {
                self.port_b_ddr
            } else if r == 4 {
                self.timer_value as u8
            } else if r == 5 {
                if self.timer_underflow {
                    0x80
                } else {
                    0x00
                }
            } else {
                0
            }
        }
    }

    /// State after a CPU read of `addr`: reading INTIM clears the underflow flag.
    pub open spec fn spec_after_read(self, addr: u16) -> Pia {
        if addr & 0x200 != 0 && addr & 0x07 == 4 {
            Pia { timer_underflow: false, ..self }
        } else {
            self
        }
    }

    /// State after a CPU write of `val` to `addr`.
    pub open spec fn spec_write(self, addr: u16, val: u8) -> Pia {
        if addr & 0x200 == 0 {
            Pia { ram: spec_array_update(self.ram, (addr & 0x7F) as int, val), ..self }
        } else if addr & 0x10 != 0 {
            Pia {
                timer_value: val as u16,
                timer_underflow: false,
                timer_prescaler_select: interval_of(addr),
                timer_prescaler: interval_of(addr),
                ..self
            }
        } else if addr & 0x03 == 0 {
            Pia { port_a_output: val, ..self }
        } else if addr & 0x03 == 1 {
            Pia { port_a_ddr: val, ..self }
        } else if addr & 0x03 == 2 {
            Pia { port_b_output: val, ..self }
        } else {
            Pia { port_b_ddr: val, ..self }
        }
    }
}

impl Clone for Pia {
    fn clone(&self) -> (r: Self)
        ensures
            r == *self,
    {
        Pia {
            ram: self.ram,
            port_a_output: self.port_a_output,
            port_a_ddr: self.port_a_ddr,
            port_a_input: self.port_a_input,
            port_b_output: self.port_b_output,
            port_b_ddr: self.port_b_ddr,
            port_b_input: self.port_b_input,
            timer_value: self.timer_value,
            timer_prescaler: self.timer_prescaler,
            timer_prescaler_select: self.timer_prescaler_select,
            timer_underflow: self.timer_underflow,
        }
    }
}

impl Default for Pia {
    fn default() -> (r: Self)
        ensures
            r == Pia::spec_new(),
    {
        Pia {
            ram: [0u8; 128],
            port_a_output: 0,
            port_a_ddr: 0,
            port_a_input: 0xFF,
            port_b_output: 0,
            port_b_ddr: 0,
            port_b_input: 0x3F,
            timer_value: 0,
            timer_prescaler: 1,
            timer_prescaler_select: 1,
            timer_underflow: false,
        }
    }
}

impl Pia {
    pub fn new() -> (r: Self)
        ensures
            r == Pia::spec_new(),
            r.tick_ready(),
    {
        Self::default()
    }

    /// Set the external input pins for port A (joystick directions).
    pub fn set_port_a_input(&mut self, val: u8)
        ensures
            *final(self) == (Pia { port_a_input: val, ..*old(self) }),
    {
        self.port_a_input = val;
    }

    /// Set the external input pins for port B (console switches).
    pub fn set_port_b_input(&mut self, val: u8)
        ensures
            *final(self) == (Pia { port_b_input: val, ..*old(self) }),
    {
        self.port_b_input = val;
    }

    /// Tick the timer by one CPU cycle.
    pub fn tick(&mut self)
        requires
            old(self).tick_ready(),
        ensures
            *final(self) == old(self).spec_tick(),
            final(self).tick_ready(),
    {
        if self.timer_value == 0 && self.timer_underflow {
            // After underflow, the timer counts down at the one-clock rate
            // (wrapping through $FF, $FE, ...)
            self.timer_value = 0xFF;
            return;
        }
        self.timer_prescaler = self.timer_prescaler - 1;
        if self.timer_prescaler == 0 {
            self.timer_prescaler = if self.timer_underflow {
                1
            } else {
                self.timer_prescaler_select
            };
            if self.timer_value == 0 {
                // Underflow: from here on the count drops once per cycle
                self.timer_underflow = true;
                self.timer_prescaler = 1;
                self.timer_value = 0xFF;
            } else {
                self.timer_value = self.timer_value - 1;
            }
        }
    }

    /// Advance the timer by `n` CPU cycles in bulk.
    /// Equivalent to calling `tick()` n times; a run that does not reach
    /// zero is advanced in closed form, without the per-cycle loop.
    pub fn tick_n(&mut self, n: u16)
        requires
            old(self).tick_ready(),
        ensures
            *final(self) == old(self).spec_ticks(n as nat),
            final(self).tick_ready(),
    {
        proof {
            lemma_ticks_ready(*self, n as nat);
        }
        let pre = self.timer_prescaler;
        let sel = self.timer_prescaler_select;
        if !self.timer_underflow && self.timer_value > 0 {
            if n < pre {
                // Still inside the current prescaler interval
                proof {
                    lemma_ticks_counted_down(*self, n as nat);
                }
                self.timer_prescaler = pre - n;
                return;
            }
            let rest = n - pre;
            let decs = 1 + rest / sel;
            if decs < self.timer_value {
                // Full prescaler periods that do not reach zero
                proof {
                    lemma_ticks_counted_down(*self, n as nat);
                }
                self.timer_value = self.timer_value - decs;
                self.timer_prescaler = sel - rest % sel;
                return;
            }
        }
        // Reaching zero, or counting at the one-clock rate after an
        // underflow: one cycle at a time
        let ghost p0 = *self;
        let mut i: u16 = 0;
        while i < n
            invariant
                i <= n,
                p0.tick_ready(),
                *self == p0.spec_ticks(i as nat),
                self.tick_ready(),
            decreases n - i,
        {
            proof {
                lemma_ticks_snoc(p0, i as nat);
            }
            self.tick();
            i = i + 1;
        }
    }

    /// Read a PIA register or RAM. `addr` is the CPU address ($80–$2FF range).
    pub fn read(&mut self, addr: u16) -> (r: u8)
        requires
            old(self).wf(),
        ensures
            r == old(self).spec_read(addr),
            *final(self) == old(self).spec_after_read(addr),
    {
        if addr & 0x200 == 0 {
            // RAM: $80–$FF (bit 9 clear, bit 7 set)
            assert(addr & 0x7Fu16 < 128) by (bit_vector);
            self.ram[(addr & 0x7F) as usize]
        } else {
            // I/O registers: $280–$29F
            let r = addr & 0x07;
            if r == 0 {
                (self.port_a_input & !self.port_a_ddr) | (self.port_a_output & self.port_a_ddr)
            } else if r == 1 {
                self.port_a_ddr
            } else if r == 2 {
                (self.port_b_input & !self.port_b_ddr) | (self.port_b_output & self.port_b_ddr)
            } else if r == 3 {
                self.port_b_ddr
            } else if r == 4 {
                self.timer_underflow = false;
                self.timer_value as u8
            } else if r == 5 {
                if self.timer_underflow {
                    0x80
                } else {
                    0x00
                }
            } else {
                0
            }
        }
    }

    /// Write a PIA register or RAM. `addr` is the CPU address ($80–$2FF range).
    pub fn write(&mut self, addr: u16, val: u8)
        ensures
            *final(self) == old(self).spec_write(addr, val),
    {
        if addr & 0x200 == 0 {
            // RAM
            assert(addr & 0x7Fu16 < 128) by (bit_vector);
            self.ram[(addr & 0x7F) as usize] = val;
            proof {
                broadcast use vstd::array::group_array_axioms;

                assert(self.ram =~= spec_array_update(old(self).ram, (addr & 0x7F) as int, val));
            }
        } else if addr & 0x10 != 0 {
            // Timer set: $294–$297 (bit 4 set on writes)
            self.timer_value = val as u16;
            self.timer_underflow = false;
            assert(addr & 0x03u16 == addr % 4) by (bit_vector);
            let sel = addr & 0x03;
            self.timer_prescaler_select = if sel == 0 {
                1
            } else if sel == 1 {
                8
            } else if sel == 2 {
                64
            } else {
                1024
            };
            self.timer_prescaler = self.timer_prescaler_select;
        } else {
            // I/O registers: $280–$283
            let sel = addr & 0x03;
            if sel == 0 {
                self.port_a_output = val;
            } else if sel == 1 {
                self.port_a_ddr = val;
            } else if sel == 2 {
                self.port_b_output = val;
            } else {
                self.port_b_ddr = val;
            }
        }
    }
}

impl Pia {
    /// Number of times `n` single-cycle ticks decrement the count, when the
    /// timer has not underflowed and its prescaler is running.
    pub open spec fn decrements(self, n: int) -> int {
        if n < self.timer_prescaler {
            0
        } else {
            1 + (n - self.timer_prescaler) / (self.timer_prescaler_select as int)
        }
    }

    /// Closed form of `n` ticks that do not reach zero.
    pub open spec fn counted_down(self, n: int) -> Pia {
        if n < self.timer_prescaler {
            Pia { timer_prescaler: (self.timer_prescaler - n) as u16, ..self }
        } else {
            let sel = self.timer_prescaler_select as int;
            Pia {
                timer_value: (self.timer_value - self.decrements(n)) as u16,
                timer_prescaler: (sel - (n - self.timer_prescaler) % sel) as u16,
                ..self
            }
        }
    }
}

proof fn lemma_div_mod_step(x: int, d: int)
    requires
        x >= d > 0,
    ensures
        (x - d) / d == x / d - 1,
        (x - d) % d == x % d,
{
    vstd::arithmetic::div_mod::lemma_mod_sub_multiples_vanish(x, d);
    vstd::arithmetic::div_mod::lemma_fundamental_div_mod(x, d);
    vstd::arithmetic::div_mod::lemma_fundamental_div_mod(x - d, d);
    let q1 = x / d;
    let q2 = (x - d) / d;
    assert(d * q2 == d * q1 - d);
    assert(q2 == q1 - 1) by (nonlinear_arith)
        requires
            d * q2 == d * q1 - d,
            d > 0,
    ;
}

proof fn lemma_ticks_counted_down(p: Pia, n: nat)
    requires
        p.wf(),
        !p.timer_underflow,
        p.timer_prescaler >= 1,
        p.timer_value > p.decrements(n as int),
    ensures
        p.spec_ticks(n) == p.counted_down(n as int),
    decreases n,
{
    let sel = p.timer_prescaler_select as int;
    if n == 0 {
    } else if p.timer_prescaler > 1 {
        let q = p.spec_tick();
        assert(q == (Pia { timer_prescaler: (p.timer_prescaler - 1) as u16, ..p }));
        lemma_ticks_counted_down(q, (n - 1) as nat);
    } else {
        let q = p.spec_tick();
        assert(q == (Pia {
            timer_prescaler: p.timer_prescaler_select,
            timer_value: (p.timer_value - 1) as u16,
            ..p
        }));
        if n - 1 >= sel {
            lemma_div_mod_step(n - 1, sel);
        } else {
            vstd::arithmetic::div_mod::lemma_small_mod((n - 1) as nat, sel as nat);
            assert((n - 1) / sel == 0) by (nonlinear_arith)
                requires
                    0 <= n - 1 < sel,
            ;
        }
        lemma_ticks_counted_down(q, (n - 1) as nat);
    }
}

/// A single tick keeps the timer ready for the next one.
pub proof fn lemma_tick_ready(p: Pia)
    requires
        p.tick_ready(),
    ensures
        p.spec_tick().tick_ready(),
{
}

/// Any number of ticks keeps the timer ready.
pub proof fn lemma_ticks_ready(p: Pia, n: nat)
    requires
        p.tick_ready(),
    ensures
        p.spec_ticks(n).tick_ready(),
    decreases n,
{
    if n > 0 {
        lemma_tick_ready(p);
        lemma_ticks_ready(p.spec_tick(), (n - 1) as nat);
    }
}

/// Ticks change only the timer: RAM, ports and the interval stay.
pub proof fn lemma_ticks_timer_only(p: Pia, n: nat)
    ensures
        p.spec_ticks(n) == (Pia {
            timer_value: p.spec_ticks(n).timer_value,
            timer_prescaler: p.spec_ticks(n).timer_prescaler,
            timer_underflow: p.spec_ticks(n).timer_underflow,
            ..p
        }),
    decreases n,
{
    if n > 0 {
        lemma_ticks_timer_only(p.spec_tick(), (n - 1) as nat);
    }
}

/// `n + 1` ticks are `n` ticks followed by one more.
pub proof fn lemma_ticks_snoc(p: Pia, n: nat)
    ensures
        p.spec_ticks(n + 1) == p.spec_ticks(n).spec_tick(),
    decreases n,
{
    reveal_with_fuel(Pia::spec_ticks, 2);
    if n > 0 {
        lemma_ticks_snoc(p.spec_tick(), (n - 1) as nat);
        assert(p.spec_ticks(n) == p.spec_tick().spec_ticks((n - 1) as nat));
        assert(p.spec_ticks(n + 1) == p.spec_tick().spec_ticks(n));
    }
}

} // verus!
