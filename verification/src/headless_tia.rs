//! Headless TIA — timing-only variant for maximum throughput.
//!
//! Maintains just enough state for the CPU to execute correctly:
//! clock/scanline counting (WSYNC release, frame boundaries), VSYNC/VBLANK
//! frame detection, register reads (collision latches, input ports) and
//! register writes (all game-visible state). It renders no pixels.
use vstd::prelude::*;
use crate::tia::{SCANLINES_PER_FRAME, hmove_offset, reset_position};

verus! {

#[derive(Clone, Copy, Debug)]
pub struct HeadlessTia {
    pub clock: u16,
    pub scanline: u16,
    pub wsync: bool,
    pub frame_complete: bool,
    pub vsync: u8,
    pub vblank: u8,
    pub cxm0p: u8,
    pub cxm1p: u8,
    pub cxp0fb: u8,
    pub cxp1fb: u8,
    pub cxm0fb: u8,
    pub cxm1fb: u8,
    pub cxblpf: u8,
    pub cxppmm: u8,
    pub inpt4: bool,
    pub inpt5: bool,
    pub paddle0: u8,
    pub paddle1: u8,
    pub paddle_counter: u16,
    pub paddle_dumped: bool,
    pub pos_p0: u16,
    pub pos_p1: u16,
    pub pos_m0: u16,
    pub pos_m1: u16,
    pub pos_bl: u16,
    pub hmp0: u8,
    pub hmp1: u8,
    pub hmm0: u8,
    pub hmm1: u8,
    pub hmbl: u8,
    pub grp0: u8,
    pub grp1: u8,
    pub grp0_old: u8,
    pub grp1_old: u8,
    pub enam0: bool,
    pub enam1: bool,
    pub enabl: bool,
    pub enabl_old: bool,
    pub vdelp0: bool,
    pub vdelp1: bool,
    pub vdelbl: bool,
    pub resmp0: bool,
    pub resmp1: bool,
    pub nusiz0: u8,
    pub nusiz1: u8,
    pub colup0: u8,
    pub colup1: u8,
    pub colupf: u8,
    pub colubk: u8,
    pub ctrlpf: u8,
    pub refp0: bool,
    pub refp1: bool,
    pub pf0: u8,
    pub pf1: u8,
    pub pf2: u8,
}

impl HeadlessTia {
    /// Power-on state.
    pub open spec fn spec_new() -> HeadlessTia {
        HeadlessTia {
            clock: 0,
            scanline: 0,
            wsync: false,
            frame_complete: false,
            vsync: 0,
            vblank: 0,
            cxm0p: 0,
            cxm1p: 0,
            cxp0fb: 0,
            cxp1fb: 0,
            cxm0fb: 0,
            cxm1fb: 0,
            cxblpf: 0,
            cxppmm: 0,
            inpt4: true,
            inpt5: true,
            paddle0: 0,
            paddle1: 0,
            paddle_counter: 0,
            paddle_dumped: false,
            pos_p0: 0,
            pos_p1: 0,
            pos_m0: 0,
            pos_m1: 0,
            pos_bl: 0,
            hmp0: 0,
            hmp1: 0,
            hmm0: 0,
            hmm1: 0,
            hmbl: 0,
            grp0: 0,
            grp1: 0,
            grp0_old: 0,
            grp1_old: 0,
            enam0: false,
            enam1: false,
            enabl: false,
            enabl_old: false,
            vdelp0: false,
            vdelp1: false,
            vdelbl: false,
            resmp0: false,
            resmp1: false,
            nusiz0: 0,
            nusiz1: 0,
            colup0: 0,
            colup1: 0,
            colupf: 0,
            colubk: 0,
            ctrlpf: 0,
            refp0: false,
            refp1: false,
            pf0: 0,
            pf1: 0,
            pf2: 0,
        }
    }

    /// Beam and object invariant: the beam is inside a scanline and a frame,
    /// the paddle counter saturates at 256, and objects sit on the 160 visible
    /// pixels.
    pub open spec fn wf(self) -> bool {
        &&& self.clock < 228
        &&& self.scanline < SCANLINES_PER_FRAME
        &&& self.paddle_counter <= 256
        &&& self.pos_p0 < 160
        &&& self.pos_p1 < 160
        &&& self.pos_m0 < 160
        &&& self.pos_m1 < 160
        &&& self.pos_bl < 160
    }

    /// Wrap to the next scanline: release WSYNC, charge the paddles, and
    /// wrap to the next frame after the last scanline.
    pub open spec fn spec_end_scanline(self) -> HeadlessTia {
        let pc = if !self.paddle_dumped && self.paddle_counter < 256 {
            (self.paddle_counter + 1) as u16
        } else {
            self.paddle_counter
        };
        let line = self.scanline + 1;
        HeadlessTia {
            clock: (self.clock - 228) as u16,
            scanline: if line >= SCANLINES_PER_FRAME {
                0
            } else {
                line as u16
            },
            wsync: false,
            paddle_counter: pc,
            frame_complete: if line >= SCANLINES_PER_FRAME {
                true
            } else {
                self.frame_complete
            },
            ..self
        }
    }

    /// Advance the beam by `n` CPU cycles (3 TIA clocks each), wrapping the
    /// scanline at most once.
    pub open spec fn spec_tick_n(self, n: int) -> HeadlessTia {
        let t = HeadlessTia { clock: (self.clock + 3 * n) as u16, ..self };
        if t.clock >= 228 {
            t.spec_end_scanline()
        } else {
            t
        }
    }

    /// `n` single-cycle advances in a row.
    pub open spec fn spec_tick3s(self, n: nat) -> HeadlessTia
        decreases n,
    {
        if n == 0 {
            self
        } else {
            self.spec_tick_n(1).spec_tick3s((n - 1) as nat)
        }
    }

    /// CPU cycles left until the end of the current scanline (rounded up).
    pub open spec fn spec_cycles_left(self) -> u16 {
        ((228 - self.clock + 2) / 3) as u16
    }

    /// The value a read of TIA register `addr` returns.
    pub open spec fn spec_read(self, addr: u16) -> u8 {
        let r = addr & 0x0F;
        if r == 0 {
            self.cxm0p
        } else if r == 1 {
            self.cxm1p
        } else if r == 2 {
            self.cxp0fb
        } else if r == 3 {
            self.cxp1fb
        } else if r == 4 {
            self.cxm0fb
        } else if r == 5 {
            self.cxm1fb
        } else if r == 6 {
            self.cxblpf
        } else if r == 7 {
            self.cxppmm
        } else if r == 8 {
            if self.paddle_counter >= self.paddle0 {
                0x80
            } else {
                0
            }
        } else if r == 9 {
            if self.paddle_counter >= self.paddle1 {
                0x80
            } else {
                0
            }
        } else if r == 0x0A || r == 0x0B {
            0x80
        } else if r == 0x0C {
            if self.inpt4 {
                0x80
            } else {
                0
            }
        } else if r == 0x0D {
            if self.inpt5 {
                0x80
            } else {
                0
            }
        } else {
            0
        }
    }

    /// Writes to registers $00–$0F (sync, colours, playfield).
    pub open spec fn spec_write_lo(self, r: u16, val: u8) -> HeadlessTia {
        if r == 0x00 {
            if self.vsync & 0x02 == 0 && val & 0x02 != 0 {
                HeadlessTia { scanline: 0, frame_complete: true, vsync: val, ..self }
            } else {
                HeadlessTia { vsync: val, ..self }
            }
        } else if r == 0x01 {
            if val & 0x80 != 0 {
                HeadlessTia { paddle_counter: 0, paddle_dumped: true, vblank: val, ..self }
            } else {
                HeadlessTia { paddle_dumped: false, vblank: val, ..self }
            }
        } else if r == 0x02 {
            HeadlessTia { wsync: true, ..self }
        } else if r == 0x04 {
            HeadlessTia { nusiz0: val, ..self }
        } else if r == 0x05 {
            HeadlessTia { nusiz1: val, ..self }
        } else if r == 0x06 {
            HeadlessTia { colup0: val, ..self }
        } else if r == 0x07 {
            HeadlessTia { colup1: val, ..self }
        } else if r == 0x08 {
            HeadlessTia { colupf: val, ..self }
        } else if r == 0x09 {
            HeadlessTia { colubk: val, ..self }
        } else if r == 0x0A {
            HeadlessTia { ctrlpf: val, ..self }
        } else if r == 0x0B {
            HeadlessTia { refp0: val & 0x08 != 0, ..self }
        } else if r == 0x0C {
            HeadlessTia { refp1: val & 0x08 != 0, ..self }
        } else if r == 0x0D {
            HeadlessTia { pf0: val, ..self }
        } else if r == 0x0E {
            HeadlessTia { pf1: val, ..self }
        } else if r == 0x0F {
            HeadlessTia { pf2: val, ..self }
        } else {
            self
        }
    }

    /// Writes to registers $10–$1F (object resets, graphics, enables).
    pub open spec fn spec_write_mid(self, r: u16, val: u8) -> HeadlessTia {
        if r == 0x10 {
            HeadlessTia { pos_p0: reset_position(self.clock), ..self }
        } else if r == 0x11 {
            HeadlessTia { pos_p1: reset_position(self.clock), ..self }
        } else if r == 0x12 {
            HeadlessTia { pos_m0: reset_position(self.clock), ..self }
        } else if r == 0x13 {
            HeadlessTia { pos_m1: reset_position(self.clock), ..self }
        } else if r == 0x14 {
            HeadlessTia { pos_bl: reset_position(self.clock), ..self }
        } else if r == 0x1B {
            HeadlessTia { grp0_old: self.grp0, grp0: val, ..self }
        } else if r == 0x1C {
            HeadlessTia { grp1_old: self.grp1, grp1: val, enabl_old: self.enabl, ..self }
        } else if r == 0x1D {
            HeadlessTia { enam0: val & 0x02 != 0, ..self }
        } else if r == 0x1E {
            HeadlessTia { enam1: val & 0x02 != 0, ..self }
        } else if r == 0x1F {
            HeadlessTia { enabl: val & 0x02 != 0, ..self }
        } else {
            self
        }
    }

    /// Writes to registers $20–$3F (motion, delays, HMOVE, clears).
    pub open spec fn spec_write_hi(self, r: u16, val: u8) -> HeadlessTia {
        if r == 0x20 {
            HeadlessTia { hmp0: val, ..self }
        } else if r == 0x21 {
            HeadlessTia { hmp1: val, ..self }
        } else if r == 0x22 {
            HeadlessTia { hmm0: val, ..self }
        } else if r == 0x23 {
            HeadlessTia { hmm1: val, ..self }
        } else if r == 0x24 {
            HeadlessTia { hmbl: val, ..self }
        } else if r == 0x25 {
            HeadlessTia { vdelp0: val & 0x01 != 0, ..self }
        } else if r == 0x26 {
            HeadlessTia { vdelp1: val & 0x01 != 0, ..self }
        } else if r == 0x27 {
            HeadlessTia { vdelbl: val & 0x01 != 0, ..self }
        } else if r == 0x28 {
            HeadlessTia { resmp0: val & 0x02 != 0, ..self }
        } else if r == 0x29 {
            HeadlessTia { resmp1: val & 0x02 != 0, ..self }
        } else if r == 0x2B {
            HeadlessTia { hmp0: 0, hmp1: 0, hmm0: 0, hmm1: 0, hmbl: 0, ..self }
        } else if r == 0x2C {
            HeadlessTia {
                cxm0p: 0,
                cxm1p: 0,
                cxp0fb: 0,
                cxp1fb: 0,
                cxm0fb: 0,
                cxm1fb: 0,
                cxblpf: 0,
                cxppmm: 0,
                ..self
            }
        } else {
            self
        }
    }

    /// State after writing `val` to TIA register `addr`.
    pub open spec fn spec_write(self, addr: u16, val: u8) -> HeadlessTia {
        let r = addr & 0x3F;
        if r < 0x10 {
            self.spec_write_lo(r, val)
        } else if r == 0x2A {
            HeadlessTia {
                pos_p0: hmove_offset(self.pos_p0, self.hmp0),
                pos_p1: hmove_offset(self.pos_p1, self.hmp1),
                pos_m0: hmove_offset(self.pos_m0, self.hmm0),
                pos_m1: hmove_offset(self.pos_m1, self.hmm1),
                pos_bl: hmove_offset(self.pos_bl, self.hmbl),
                ..self
            }
        } else if r < 0x20 {
            self.spec_write_mid(r, val)
        } else {
            self.spec_write_hi(r, val)
        }
    }
}

impl Default for HeadlessTia {
    fn default() -> (r: Self)
        ensures
            r == HeadlessTia::spec_new(),
    {
        HeadlessTia {
            clock: 0,
            scanline: 0,
            wsync: false,
            frame_complete: false,
            vsync: 0,
            vblank: 0,
            cxm0p: 0,
            cxm1p: 0,
            cxp0fb: 0,
            cxp1fb: 0,
            cxm0fb: 0,
            cxm1fb: 0,
            cxblpf: 0,
            cxppmm: 0,
            inpt4: true,
            inpt5: true,
            paddle0: 0,
            paddle1: 0,
            paddle_counter: 0,
            paddle_dumped: false,
            pos_p0: 0,
            pos_p1: 0,
            pos_m0: 0,
            pos_m1: 0,
            pos_bl: 0,
            hmp0: 0,
            hmp1: 0,
            hmm0: 0,
            hmm1: 0,
            hmbl: 0,
            grp0: 0,
            grp1: 0,
            grp0_old: 0,
            grp1_old: 0,
            enam0: false,
            enam1: false,
            enabl: false,
            enabl_old: false,
            vdelp0: false,
            vdelp1: false,
            vdelbl: false,
            resmp0: false,
            resmp1: false,
            nusiz0: 0,
            nusiz1: 0,
            colup0: 0,
            colup1: 0,
            colupf: 0,
            colubk: 0,
            ctrlpf: 0,
            refp0: false,
            refp1: false,
            pf0: 0,
            pf1: 0,
            pf2: 0,
        }
    }
}

impl HeadlessTia {
    pub fn new() -> (r: Self)
        ensures
            r == HeadlessTia::spec_new(),
            r.wf(),
    {
        Self::default()
    }

    pub fn set_input(&mut self, player: u8, fire: bool)
        ensures
            player == 0 ==> *final(self) == (HeadlessTia { inpt4: fire, ..*old(self) }),
            player == 1 ==> *final(self) == (HeadlessTia { inpt5: fire, ..*old(self) }),
            player > 1 ==> *final(self) == *old(self),
    {
        match player {
            0 => self.inpt4 = fire,
            1 => self.inpt5 = fire,
            _ => {},
        }
    }

    pub fn set_paddle(&mut self, player: u8, position: u8)
        ensures
            player == 0 ==> *final(self) == (HeadlessTia { paddle0: position, ..*old(self) }),
            player == 1 ==> *final(self) == (HeadlessTia { paddle1: position, ..*old(self) }),
            player > 1 ==> *final(self) == *old(self),
    {
        match player {
            0 => self.paddle0 = position,
            1 => self.paddle1 = position,
            _ => {},
        }
    }

    /// Advance by 3 TIA clocks (1 CPU cycle). No pixel rendering.
    pub fn tick3(&mut self)
        requires
            old(self).wf(),
        ensures
            *final(self) == old(self).spec_tick_n(1),
            final(self).wf(),
    {
        let mut t = HeadlessTia { clock: self.clock + 3, ..*self };
        if t.clock >= 228 {
            t.end_scanline();
        }
        *self = t;
    }

    /// Advance by `n` CPU cycles (3*n TIA clocks) in one call.
    /// Handles at most one scanline boundary crossing (safe for n <= 76).
    pub fn tick_n(&mut self, n: u8)
        requires
            old(self).wf(),
            n <= 76,
        ensures
            *final(self) == old(self).spec_tick_n(n as int),
            final(self).wf(),
    {
        let mut t = HeadlessTia { clock: self.clock + n as u16 * 3, ..*self };
        if t.clock >= 228 {
            t.end_scanline();
        }
        *self = t;
    }

    /// How many CPU cycles remain until end of current scanline.
    /// Returns 0 if we're exactly at a scanline boundary.
    pub fn cycles_until_scanline_end(&self) -> (r: u16)
        requires
            self.wf(),
        ensures
            r == self.spec_cycles_left(),
            1 <= r <= 76,
    {
        // 228 TIA clocks per scanline, 3 TIA clocks per CPU cycle = 76 CPU cycles
        let tia_remaining = 228u16.saturating_sub(self.clock);
        (tia_remaining + 2) / 3
    }

    /// Fast-forward to end of current scanline. Used for WSYNC.
    /// Returns the number of CPU cycles skipped.
    pub fn skip_to_scanline_end(&mut self) -> (r: u16)
        requires
            old(self).wf(),
        ensures
            r == old(self).spec_cycles_left(),
            *final(self) == (HeadlessTia { clock: 228, ..*old(self) }).spec_end_scanline(),
            final(self).clock == 0,
            final(self).wf(),
    {
        let cpu_cycles = self.cycles_until_scanline_end();
        if cpu_cycles > 0 {
            self.clock = 228;  // set to the boundary so end_scanline wraps to 0
            self.end_scanline();
        }
        cpu_cycles
    }

    pub(crate) fn end_scanline(&mut self)
        requires
            228 <= old(self).clock,
            old(self).scanline < SCANLINES_PER_FRAME,
            old(self).paddle_counter <= 256,
        ensures
            *final(self) == old(self).spec_end_scanline(),
    {
        let clock = self.clock - 228;
        let mut scanline = self.scanline + 1;
        let mut paddle_counter = self.paddle_counter;
        let mut frame_complete = self.frame_complete;
        if !self.paddle_dumped && paddle_counter < 256 {
            paddle_counter = paddle_counter + 1;
        }
        if scanline >= SCANLINES_PER_FRAME {
            scanline = 0;
            if !frame_complete {
                frame_complete = true;
            }
        }
        *self = HeadlessTia { clock, scanline, wsync: false, paddle_counter, frame_complete, ..*self };
    }

    fn apply_hmove_offset(pos: u16, hm: u8) -> (r: u16)
        requires
            pos < 160,
        ensures
            r == hmove_offset(pos, hm),
            r < 160,
    {
        crate::tia::apply_hmove(pos, hm)
    }

    pub fn read(&self, addr: u16) -> (r: u8)
        ensures
            r == self.spec_read(addr),
    {
        let r = addr & 0x0F;
        if r == 0 {
            self.cxm0p
        } else if r == 1 {
            self.cxm1p
        } else if r == 2 {
            self.cxp0fb
        } else if r == 3 {
            self.cxp1fb
        } else if r == 4 {
            self.cxm0fb
        } else if r == 5 {
            self.cxm1fb
        } else if r == 6 {
            self.cxblpf
        } else if r == 7 {
            self.cxppmm
        } else if r == 8 {
            if self.paddle_counter >= self.paddle0 as u16 {
                0x80
            } else {
                0x00
            }
        } else if r == 9 {
            if self.paddle_counter >= self.paddle1 as u16 {
                0x80
            } else {
                0x00
            }
        } else if r == 0x0A || r == 0x0B {
            0x80
        } else if r == 0x0C {
            if self.inpt4 {
                0x80
            } else {
                0x00
            }
        } else if r == 0x0D {
            if self.inpt5 {
                0x80
            } else {
                0x00
            }
        } else {
            0
        }
    }

    /// HMOVE: apply every object's horizontal motion.
    fn hmove(&mut self)
        requires
            old(self).pos_p0 < 160,
            old(self).pos_p1 < 160,
            old(self).pos_m0 < 160,
            old(self).pos_m1 < 160,
            old(self).pos_bl < 160,
        ensures
            *final(self) == (HeadlessTia {
                pos_p0: hmove_offset(old(self).pos_p0, old(self).hmp0),
                pos_p1: hmove_offset(old(self).pos_p1, old(self).hmp1),
                pos_m0: hmove_offset(old(self).pos_m0, old(self).hmm0),
                pos_m1: hmove_offset(old(self).pos_m1, old(self).hmm1),
                pos_bl: hmove_offset(old(self).pos_bl, old(self).hmbl),
                ..*old(self)
            }),
    {
        let p0 = Self::apply_hmove_offset(self.pos_p0, self.hmp0);
        let p1 = Self::apply_hmove_offset(self.pos_p1, self.hmp1);
        let m0 = Self::apply_hmove_offset(self.pos_m0, self.hmm0);
        let m1 = Self::apply_hmove_offset(self.pos_m1, self.hmm1);
        let bl = Self::apply_hmove_offset(self.pos_bl, self.hmbl);
        *self = HeadlessTia { pos_p0: p0, pos_p1: p1, pos_m0: m0, pos_m1: m1, pos_bl: bl, ..*self };
    }

    fn write_lo(&mut self, r: u16, val: u8)
        ensures
            *final(self) == old(self).spec_write_lo(r, val),
    {
        if r == 0x00 {
            if self.vsync & 0x02 == 0 && val & 0x02 != 0 {
                *self = HeadlessTia { scanline: 0, frame_complete: true, vsync: val, ..*self };
            } else {
                *self = HeadlessTia { vsync: val, ..*self };
            }
        } else if r == 0x01 {
            if val & 0x80 != 0 {
                *self = HeadlessTia { paddle_counter: 0, paddle_dumped: true, vblank: val, ..*self };
            } else {
                *self = HeadlessTia { paddle_dumped: false, vblank: val, ..*self };
            }
        } else if r == 0x02 {
            *self = HeadlessTia { wsync: true, ..*self };
        } else if r == 0x04 {
            *self = HeadlessTia { nusiz0: val, ..*self };
        } else if r == 0x05 {
            *self = HeadlessTia { nusiz1: val, ..*self };
        } else if r == 0x06 {
            *self = HeadlessTia { colup0: val, ..*self };
        } else if r == 0x07 {
            *self = HeadlessTia { colup1: val, ..*self };
        } else if r == 0x08 {
            *self = HeadlessTia { colupf: val, ..*self };
        } else if r == 0x09 {
            *self = HeadlessTia { colubk: val, ..*self };
        } else if r == 0x0A {
            *self = HeadlessTia { ctrlpf: val, ..*self };
        } else if r == 0x0B {
            *self = HeadlessTia { refp0: val & 0x08 != 0, ..*self };
        } else if r == 0x0C {
            *self = HeadlessTia { refp1: val & 0x08 != 0, ..*self };
        } else if r == 0x0D {
            *self = HeadlessTia { pf0: val, ..*self };
        } else if r == 0x0E {
            *self = HeadlessTia { pf1: val, ..*self };
        } else if r == 0x0F {
            *self = HeadlessTia { pf2: val, ..*self };
        }
    }

    fn write_mid(&mut self, r: u16, val: u8)
        requires
            old(self).clock < 228,
        ensures
            *final(self) == old(self).spec_write_mid(r, val),
    {
        if r == 0x10 {
            *self = HeadlessTia { pos_p0: crate::tia::position_at(self.clock), ..*self };
        } else if r == 0x11 {
            *self = HeadlessTia { pos_p1: crate::tia::position_at(self.clock), ..*self };
        } else if r == 0x12 {
            *self = HeadlessTia { pos_m0: crate::tia::position_at(self.clock), ..*self };
        } else if r == 0x13 {
            *self = HeadlessTia { pos_m1: crate::tia::position_at(self.clock), ..*self };
        } else if r == 0x14 {
            *self = HeadlessTia { pos_bl: crate::tia::position_at(self.clock), ..*self };
        } else if r == 0x1B {
            *self = HeadlessTia { grp0_old: self.grp0, grp0: val, ..*self };
        } else if r == 0x1C {
            *self = HeadlessTia { grp1_old: self.grp1, grp1: val, enabl_old: self.enabl, ..*self };
        } else if r == 0x1D {
            *self = HeadlessTia { enam0: val & 0x02 != 0, ..*self };
        } else if r == 0x1E {
            *self = HeadlessTia { enam1: val & 0x02 != 0, ..*self };
        } else if r == 0x1F {
            *self = HeadlessTia { enabl: val & 0x02 != 0, ..*self };
        }
    }

    fn write_hi(&mut self, r: u16, val: u8)
        ensures
            *final(self) == old(self).spec_write_hi(r, val),
    {
        if r == 0x20 {
            *self = HeadlessTia { hmp0: val, ..*self };
        } else if r == 0x21 {
            *self = HeadlessTia { hmp1: val, ..*self };
        } else if r == 0x22 {
            *self = HeadlessTia { hmm0: val, ..*self };
        } else if r == 0x23 {
            *self = HeadlessTia { hmm1: val, ..*self };
        } else if r == 0x24 {
            *self = HeadlessTia { hmbl: val, ..*self };
        } else if r == 0x25 {
            *self = HeadlessTia { vdelp0: val & 0x01 != 0, ..*self };
        } else if r == 0x26 {
            *self = HeadlessTia { vdelp1: val & 0x01 != 0, ..*self };
        } else if r == 0x27 {
            *self = HeadlessTia { vdelbl: val & 0x01 != 0, ..*self };
        } else if r == 0x28 {
            *self = HeadlessTia { resmp0: val & 0x02 != 0, ..*self };
        } else if r == 0x29 {
            *self = HeadlessTia { resmp1: val & 0x02 != 0, ..*self };
        } else if r == 0x2B {
            *self = HeadlessTia { hmp0: 0, hmp1: 0, hmm0: 0, hmm1: 0, hmbl: 0, ..*self };
        } else if r == 0x2C {
            *self = HeadlessTia {
                cxm0p: 0,
                cxm1p: 0,
                cxp0fb: 0,
                cxp1fb: 0,
                cxm0fb: 0,
                cxm1fb: 0,
                cxblpf: 0,
                cxppmm: 0,
                ..*self
            };
        }
    }

    pub fn write(&mut self, addr: u16, val: u8)
        requires
            old(self).wf(),
        ensures
            *final(self) == old(self).spec_write(addr, val),
            final(self).wf(),
    {
        proof {
            lemma_write_keeps_wf(*self, addr, val);
        }
        let r = addr & 0x3F;
        if r < 0x10 {
            self.write_lo(r, val);
        } else if r == 0x2A {
            self.hmove();
        } else if r < 0x20 {
            self.write_mid(r, val);
        } else {
            self.write_hi(r, val);
        }
    }
}

/// Register writes keep the beam and object invariant.
proof fn lemma_write_keeps_wf(t: HeadlessTia, addr: u16, val: u8)
    requires
        t.wf(),
    ensures
        t.spec_write(addr, val).wf(),
{
    let r = addr & 0x3F;
    if r == 0x2A {
        crate::tia::lemma_hmove_in_range(t.pos_p0, t.hmp0);
        crate::tia::lemma_hmove_in_range(t.pos_p1, t.hmp1);
        crate::tia::lemma_hmove_in_range(t.pos_m0, t.hmm0);
        crate::tia::lemma_hmove_in_range(t.pos_m1, t.hmm1);
        crate::tia::lemma_hmove_in_range(t.pos_bl, t.hmbl);
    } else if 0x10 <= r <= 0x14 {
        crate::tia::lemma_reset_in_range(t.clock);
    }
}

/// Advancing by `a` and then `b` cycles is advancing by `a + b` when no more
/// than a scanline passes.
#[verifier::rlimit(100)]
proof fn lemma_tick_n_compose(t: HeadlessTia, a: int, b: int)
    requires
        t.wf(),
        0 <= a,
        0 <= b,
        a + b <= 76,
    ensures
        t.spec_tick_n(a).wf(),
        t.spec_tick_n(a).spec_tick_n(b) == t.spec_tick_n(a + b),
{
    let t1 = t.spec_tick_n(a);
    if t.clock + 3 * a >= 228 {
        assert(t1.clock == t.clock + 3 * a - 228);
        assert(t1.clock + 3 * b < 228);
    } else {
        assert(t1.clock == t.clock + 3 * a);
    }
}

/// Advancing by `n` CPU cycles in one call is the same as advancing one cycle
/// at a time, `n` times, for every `n` up to a full scanline.
pub proof fn lemma_tick_n_is_n_tick3(t: HeadlessTia, n: nat)
    requires
        t.wf(),
        n <= 76,
    ensures
        t.spec_tick_n(n as int) == t.spec_tick3s(n),
    decreases n,
{
    if n > 0 {
        let t1 = t.spec_tick_n(1);
        lemma_tick_n_compose(t, 1, n - 1);
        lemma_tick_n_is_n_tick3(t1, (n - 1) as nat);
    }
}

} // verus!
