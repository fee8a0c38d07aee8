//! Television Interface Adapter (TIA) — video and input for the Atari 2600.
use vstd::prelude::*;
use vstd::array::{spec_array_update, spec_array_fill_for_copy_type};
use crate::headless_tia::HeadlessTia;

verus! {

/// CPU clocks per scanline (228 TIA clocks / 3).
pub const SCANLINE_CYCLES: u16 = 76;
pub const SCANLINES_PER_FRAME: u16 = 262;
pub const VISIBLE_HEIGHT: u16 = 192;
pub const FRAME_WIDTH: usize = 160;
pub const FRAME_HEIGHT: usize = 192;
/// Pixels in one frame (160 x 192).
pub const FRAME_PIXELS: usize = 30720;
/// Display width after correcting for non-square TIA pixels (2x horizontal).
pub const DISPLAY_WIDTH: usize = 320;

/// Signed horizontal motion of an HMxx register: the upper nibble as a
/// two's-complement value in -8..=7.
pub open spec fn motion(hm: u8) -> int {
    if hm >= 128 {
        hm / 16 - 16
    } else {
        hm as int / 16
    }
}

/// Position after HMOVE: positive motion moves left, negative right, wrapping
/// around the 160 visible pixels.
pub open spec fn hmove_offset(pos: u16, hm: u8) -> u16 {
    ((pos - motion(hm)) % 160) as u16
}

/// Pixel column an object lands on when reset at TIA clock `clock`
/// (68 clocks of horizontal blank, 5 clocks of latency).
pub open spec fn reset_position(clock: u16) -> u16 {
    ((clock - 68 + 5) % 160) as u16
}

pub proof fn lemma_hmove_in_range(pos: u16, hm: u8)
    ensures
        hmove_offset(pos, hm) < 160,
{
}

pub proof fn lemma_reset_in_range(clock: u16)
    ensures
        reset_position(clock) < 160,
{
}

pub fn apply_hmove(pos: u16, hm: u8) -> (r: u16)
    requires
        pos < 160,
    ensures
        r == hmove_offset(pos, hm),
        r < 160,
{
    // HM values are 4-bit signed in the upper nibble: -8 to +7
    let m: u16 = (hm / 16) as u16;
    if hm >= 128 {
        // negative motion: move right by 16 - m
        (pos + (16 - m)) % 160
    } else {
        (pos + 160 - m) % 160
    }
}

pub fn position_at(clock: u16) -> (r: u16)
    requires
        clock < 228,
    ensures
        r == reset_position(clock),
        r < 160,
{
    (clock + 97) % 160
}


/// Player copies for the low three NUSIZ bits: how many, and the offsets of
/// the second and third copy (the first is at offset 0).
pub open spec fn copy_layout(nusiz: u8) -> (u8, u16, u16) {
    let m = nusiz & 0x07;
    if m == 1 {
        (2, 16, 0)
    } else if m == 2 {
        (2, 32, 0)
    } else if m == 3 {
        (3, 16, 32)
    } else if m == 4 {
        (2, 64, 0)
    } else if m == 6 {
        (3, 32, 64)
    } else {
        (1, 0, 0)
    }
}

/// Distance of column `x` to the right of an object copy at `pos + off`,
/// wrapping around the 160 visible pixels.
pub open spec fn distance(x: u8, pos: u16, off: u16) -> u16 {
    ((x + 160 - (pos + off) % 160) % 160) as u16
}

/// Whether a player copy `offset` pixels to the left of the beam shows a set
/// graphics bit (`width` pixels per bit, optionally reflected).
pub open spec fn player_copy_hit(grp: u8, refp: bool, width: u16, offset: u16) -> bool {
    offset < 8 * width && offset < 80 && {
        let b = offset / width;
        if refp {
            grp & (1u8 << b) != 0
        } else {
            grp & (0x80u8 >> b) != 0
        }
    }
}

/// A collision latch with bit 7 and bit 6 set when their conditions hold.
pub open spec fn latch(v: u8, hi: bool, lo: bool) -> u8 {
    v | (if hi {
        0x80u8
    } else {
        0u8
    }) | (if lo {
        0x40u8
    } else {
        0u8
    })
}

/// Rendering TIA: the register file and beam of the headless TIA, plus the
/// framebuffer it draws into.
#[derive(Clone, Debug)]
pub struct Tia {
    /// Registers, beam position, collision latches and inputs.
    pub core: HeadlessTia,
    /// Framebuffer row being written (0–192).
    pub render_line: u16,
    /// HMOVE was written this scanline: HBLANK extends by 8 clocks.
    pub hmove_pending: bool,
    /// 160 x 192 NTSC palette indices.
    pub framebuffer: Box<[u8; FRAME_PIXELS]>,
}

/// An all-zero frame.
pub open spec fn blank_frame() -> Box<[u8; FRAME_PIXELS]> {
    Box::new(spec_array_fill_for_copy_type::<u8, 30720>(0))
}

impl Tia {
    /// Power-on state (paddles centred).
    pub open spec fn spec_new() -> Tia {
        Tia {
            core: HeadlessTia { paddle0: 128, paddle1: 128, ..HeadlessTia::spec_new() },
            render_line: 0,
            hmove_pending: false,
            framebuffer: blank_frame(),
        }
    }

    pub open spec fn wf(self) -> bool {
        self.core.wf() && self.render_line <= 192
    }

    /// Playfield bit under visible column `x` (the right half repeats or, with
    /// CTRLPF bit 0, mirrors the left half).
    pub open spec fn spec_playfield_bit(self, x: u8) -> bool {
        let pf_x: int = if x < 80 {
            x as int / 4
        } else if self.core.ctrlpf & 0x01 != 0 {
            19 - (x - 80) / 4
        } else {
            (x - 80) / 4
        };
        if 0 <= pf_x <= 3 {
            self.core.pf0 & (0x10u8 << (pf_x as u8)) != 0
        } else if 4 <= pf_x <= 11 {
            self.core.pf1 & (0x80u8 >> ((pf_x - 4) as u8)) != 0
        } else if 12 <= pf_x <= 19 {
            self.core.pf2 & (0x01u8 << ((pf_x - 12) as u8)) != 0
        } else {
            false
        }
    }

    /// Player pixel under column `x`, with NUSIZ copies and sizing.
    pub open spec fn spec_player_pixel(self, player: u8, x: u8) -> bool {
        let grp = if player == 0 {
            if self.core.vdelp0 {
                self.core.grp0_old
            } else {
                self.core.grp0
            }
        } else if self.core.vdelp1 {
            self.core.grp1_old
        } else {
            self.core.grp1
        };
        let pos = if player == 0 {
            self.core.pos_p0
        } else {
            self.core.pos_p1
        };
        let refp = if player == 0 {
            self.core.refp0
        } else {
            self.core.refp1
        };
        let nusiz = if player == 0 {
            self.core.nusiz0
        } else {
            self.core.nusiz1
        };
        let width: u16 = if nusiz & 0x07 == 5 {
            2
        } else if nusiz & 0x07 == 7 {
            4
        } else {
            1
        };
        let (n, o1, o2) = copy_layout(nusiz);
        grp != 0 && (player_copy_hit(grp, refp, width, distance(x, pos, 0)) || (n >= 2
            && player_copy_hit(grp, refp, width, distance(x, pos, o1))) || (n >= 3
            && player_copy_hit(grp, refp, width, distance(x, pos, o2))))
    }

    /// Missile pixel under column `x`, with NUSIZ size and copies.
    pub open spec fn spec_missile_pixel(self, missile: u8, x: u8) -> bool {
        let enabled = if missile == 0 {
            self.core.enam0
        } else {
            self.core.enam1
        };
        let pos = if missile == 0 {
            self.core.pos_m0
        } else {
            self.core.pos_m1
        };
        let nusiz = if missile == 0 {
            self.core.nusiz0
        } else {
            self.core.nusiz1
        };
        let resmp = if missile == 0 {
            self.core.resmp0
        } else {
            self.core.resmp1
        };
        let width: u16 = 1u16 << ((nusiz >> 4u8) & 0x03u8);
        let (n, o1, o2) = copy_layout(nusiz);
        let hit = |d: u16| d < width && d < 80;
        enabled && !resmp && (hit(distance(x, pos, 0)) || (n >= 2 && hit(distance(x, pos, o1)))
            || (n >= 3 && hit(distance(x, pos, o2))))
    }

    /// Ball pixel under column `x`, with CTRLPF size.
    pub open spec fn spec_ball_pixel(self, x: u8) -> bool {
        let enabled = if self.core.vdelbl {
            self.core.enabl_old
        } else {
            self.core.enabl
        };
        let width: u16 = 1u16 << ((self.core.ctrlpf >> 4u8) & 0x03u8);
        let d = distance(x, self.core.pos_bl, 0);
        enabled && d < width && d < 80
    }

    /// Colour of column `x` by object priority (CTRLPF bit 2 puts playfield and
    /// ball in front; bit 1 colours the playfield like the players, per half).
    pub open spec fn spec_color(self, x: u8) -> u8 {
        let pf = self.spec_playfield_bit(x);
        let p0 = self.spec_player_pixel(0, x);
        let p1 = self.spec_player_pixel(1, x);
        let m0 = self.spec_missile_pixel(0, x);
        let m1 = self.spec_missile_pixel(1, x);
        let bl = self.spec_ball_pixel(x);
        let pf_color = if self.core.ctrlpf & 0x02 != 0 {
            if x < 80 {
                self.core.colup0
            } else {
                self.core.colup1
            }
        } else {
            self.core.colupf
        };
        if self.core.ctrlpf & 0x04 != 0 {
            if pf || bl {
                pf_color
            } else if p0 || m0 {
                self.core.colup0
            } else if p1 || m1 {
                self.core.colup1
            } else {
                self.core.colubk
            }
        } else {
            if p0 || m0 {
                self.core.colup0
            } else if p1 || m1 {
                self.core.colup1
            } else if pf || bl {
                pf_color
            } else {
                self.core.colubk
            }
        }
    }

    /// First visible TIA clock of the scanline (HMOVE extends the blank).
    pub open spec fn hblank_end(self) -> u16 {
        if self.hmove_pending {
            76
        } else {
            68
        }
    }

    /// Whether the beam is on a visible, unblanked pixel of a rendered row.
    pub open spec fn beam_visible(self) -> bool {
        self.core.clock >= self.hblank_end() && self.core.clock - self.hblank_end() < 160 && self.core.vblank
            & 0x02 == 0 && self.render_line < 192
    }

    /// Draw the pixel under the beam and latch its collisions.
    pub open spec fn spec_render(self) -> Tia {
        let x = (self.core.clock - self.hblank_end()) as u8;
        let pf = self.spec_playfield_bit(x);
        let p0 = self.spec_player_pixel(0, x);
        let p1 = self.spec_player_pixel(1, x);
        let m0 = self.spec_missile_pixel(0, x);
        let m1 = self.spec_missile_pixel(1, x);
        let bl = self.spec_ball_pixel(x);
        let idx = self.render_line * 160 + x;
        Tia {
            framebuffer: Box::new(spec_array_update(*self.framebuffer, idx, self.spec_color(x))),
            core: HeadlessTia {
                cxm0p: latch(self.core.cxm0p, m0 && p1, m0 && p0),
                cxm1p: latch(self.core.cxm1p, m1 && p0, m1 && p1),
                cxp0fb: latch(self.core.cxp0fb, p0 && pf, p0 && bl),
                cxp1fb: latch(self.core.cxp1fb, p1 && pf, p1 && bl),
                cxm0fb: latch(self.core.cxm0fb, m0 && pf, m0 && bl),
                cxm1fb: latch(self.core.cxm1fb, m1 && pf, m1 && bl),
                cxblpf: latch(self.core.cxblpf, bl && pf, false),
                cxppmm: latch(self.core.cxppmm, p0 && p1, m0 && m1),
                ..self.core
            },
            ..self
        }
    }

    /// Advance the beam one TIA clock, wrapping scanline and frame; a new
    /// scanline moves rendering to the next row while not blanked.
    pub open spec fn spec_advance(self) -> Tia {
        if self.core.clock + 1 >= 228 {
            Tia {
                core: HeadlessTia { clock: 228, ..self.core }.spec_end_scanline(),
                hmove_pending: false,
                render_line: if self.core.vblank & 0x02 == 0 && self.render_line < 192 {
                    (self.render_line + 1) as u16
                } else {
                    self.render_line
                },
                ..self
            }
        } else {
            Tia { core: HeadlessTia { clock: (self.core.clock + 1) as u16, ..self.core }, ..self }
        }
    }

    /// One TIA clock: render when the beam is visible, then advance it.
    pub open spec fn spec_tick(self) -> Tia {
        if self.beam_visible() {
            self.spec_render().spec_advance()
        } else {
            self.spec_advance()
        }
    }

    /// State after writing `val` to TIA register `addr`: the register file
    /// takes the write; turning VBLANK off restarts the frame at row 0 on a
    /// cleared framebuffer, and HMOVE extends this line's blank.
    pub open spec fn spec_write(self, addr: u16, val: u8) -> Tia {
        let r = addr & 0x3F;
        let vblank_off = r == 0x01 && self.core.vblank & 0x02 != 0 && val & 0x02 == 0;
        Tia {
            core: self.core.spec_write(addr, val),
            render_line: if vblank_off {
                0
            } else {
                self.render_line
            },
            framebuffer: if vblank_off {
                blank_frame()
            } else {
                self.framebuffer
            },
            hmove_pending: if r == 0x2A {
                true
            } else {
                self.hmove_pending
            },
        }
    }
}


fn copies(nusiz: u8) -> (r: (u8, u16, u16))
    ensures
        r == copy_layout(nusiz),
{
    let m = nusiz & 0x07;
    if m == 1 {
        (2, 16, 0)
    } else if m == 2 {
        (2, 32, 0)
    } else if m == 3 {
        (3, 16, 32)
    } else if m == 4 {
        (2, 64, 0)
    } else if m == 6 {
        (3, 32, 64)
    } else {
        (1, 0, 0)
    }
}

fn distance_to(x: u8, pos: u16, off: u16) -> (r: u16)
    requires
        pos < 160,
        off <= 64,
    ensures
        r == distance(x, pos, off),
{
    let copy_pos = (pos + off) % 160;
    ((x as u16) + 160 - copy_pos) % 160
}

fn player_hit(grp: u8, refp: bool, width: u16, offset: u16) -> (r: bool)
    requires
        1 <= width <= 4,
    ensures
        r == player_copy_hit(grp, refp, width, offset),
{
    if offset < 8 * width && offset < 80 {
        let b = offset / width;
        assert(b < 8) by (nonlinear_arith)
            requires
                offset < 8 * width,
                b == offset / width,
                width >= 1,
        ;
        if refp {
            grp & (1u8 << b) != 0
        } else {
            grp & (0x80u8 >> b) != 0
        }
    } else {
        false
    }
}

/// Clear every pixel of a frame.
fn clear_frame(fb: &mut Box<[u8; FRAME_PIXELS]>)
    ensures
        *final(fb) == blank_frame(),
{
    let mut i: usize = 0;
    while i < FRAME_PIXELS
        invariant
            i <= FRAME_PIXELS,
            forall|j: int| 0 <= j < i ==> fb@[j] == 0u8,
        decreases FRAME_PIXELS - i,
    {
        fb[i] = 0;
        i = i + 1;
    }
    proof {
        broadcast use vstd::array::group_array_axioms;

        assert(**fb =~= spec_array_fill_for_copy_type::<u8, 30720>(0));
    }
}

impl Tia {
    pub fn new() -> (r: Self)
        ensures
            r == Tia::spec_new(),
            r.wf(),
    {
        let mut core = HeadlessTia::new();
        core.paddle0 = 128;
        core.paddle1 = 128;
        let r = Tia {
            core,
            render_line: 0,
            hmove_pending: false,
            framebuffer: Box::new([0u8; FRAME_PIXELS]),
        };
        proof {
            broadcast use vstd::array::group_array_axioms;

            assert(*r.framebuffer =~= spec_array_fill_for_copy_type::<u8, 30720>(0));
        }
        r
    }

    /// Set fire button state (active low: false = pressed).
    pub fn set_input(&mut self, player: u8, fire: bool)
        ensures
            *final(self) == (Tia {
                core: if player == 0 {
                    HeadlessTia { inpt4: fire, ..old(self).core }
                } else if player == 1 {
                    HeadlessTia { inpt5: fire, ..old(self).core }
                } else {
                    old(self).core
                },
                ..*old(self)
            }),
    {
        self.core.set_input(player, fire);
    }

    /// Set paddle position (0 = full left, 255 = full right).
    pub fn set_paddle(&mut self, player: u8, position: u8)
        ensures
            *final(self) == (Tia {
                core: if player == 0 {
                    HeadlessTia { paddle0: position, ..old(self).core }
                } else if player == 1 {
                    HeadlessTia { paddle1: position, ..old(self).core }
                } else {
                    old(self).core
                },
                ..*old(self)
            }),
    {
        self.core.set_paddle(player, position);
    }

    /// Read a TIA register. `addr` is the raw CPU address ($00–$0D range).
    pub fn read(&self, addr: u16) -> (r: u8)
        ensures
            r == self.core.spec_read(addr),
    {
        self.core.read(addr)
    }

    /// Write a TIA register. `addr` is the raw CPU address ($00–$2C range).
    pub fn write(&mut self, addr: u16, val: u8)
        requires
            old(self).wf(),
        ensures
            *final(self) == old(self).spec_write(addr, val),
            final(self).wf(),
    {
        let r = addr & 0x3F;
        if r == 0x01 && self.core.vblank & 0x02 != 0 && val & 0x02 == 0 {
            // VBLANK turned off: start rendering the visible area
            self.render_line = 0;
            clear_frame(&mut self.framebuffer);
        }
        if r == 0x2A {
            self.hmove_pending = true;
        }
        self.core.write(addr, val);
    }

    fn get_playfield_bit(&self, x: u8) -> (r: bool)
        requires
            x < 160,
        ensures
            r == self.spec_playfield_bit(x),
    {
        let pf_x: u8 = if x < 80 {
            x / 4
        } else if self.core.ctrlpf & 0x01 != 0 {
            19 - ((x - 80) / 4)
        } else {
            (x - 80) / 4
        };
        if pf_x <= 3 {
            self.core.pf0 & (0x10u8 << pf_x) != 0
        } else if pf_x <= 11 {
            self.core.pf1 & (0x80u8 >> (pf_x - 4)) != 0
        } else if pf_x <= 19 {
            self.core.pf2 & (0x01u8 << (pf_x - 12)) != 0
        } else {
            false
        }
    }

    /// Player pixel test with NUSIZ support (copies and sizing).
    fn get_player_pixel(&self, player: u8, x: u8) -> (r: bool)
        requires
            self.core.pos_p0 < 160,
            self.core.pos_p1 < 160,
        ensures
            r == self.spec_player_pixel(player, x),
    {
        let c = &self.core;
        let grp = if player == 0 {
            if c.vdelp0 { c.grp0_old } else { c.grp0 }
        } else if c.vdelp1 {
            c.grp1_old
        } else {
            c.grp1
        };
        let pos = if player == 0 { c.pos_p0 } else { c.pos_p1 };
        let refp = if player == 0 { c.refp0 } else { c.refp1 };
        let nusiz = if player == 0 { c.nusiz0 } else { c.nusiz1 };
        if grp == 0 {
            return false;
        }
        // Player pixel width: 1 for normal, 2 for double, 4 for quad
        let width: u16 = if nusiz & 0x07 == 5 {
            2
        } else if nusiz & 0x07 == 7 {
            4
        } else {
            1
        };
        let (n, o1, o2) = copies(nusiz);
        if player_hit(grp, refp, width, distance_to(x, pos, 0)) {
            return true;
        }
        if n >= 2 && player_hit(grp, refp, width, distance_to(x, pos, o1)) {
            return true;
        }
        n >= 3 && player_hit(grp, refp, width, distance_to(x, pos, o2))
    }

    /// Missile pixel test with NUSIZ support (size and copies).
    fn get_missile_pixel(&self, missile: u8, x: u8) -> (r: bool)
        requires
            self.core.pos_m0 < 160,
            self.core.pos_m1 < 160,
        ensures
            r == self.spec_missile_pixel(missile, x),
    {
        let c = &self.core;
        let enabled = if missile == 0 { c.enam0 } else { c.enam1 };
        let pos = if missile == 0 { c.pos_m0 } else { c.pos_m1 };
        let nusiz = if missile == 0 { c.nusiz0 } else { c.nusiz1 };
        let resmp = if missile == 0 { c.resmp0 } else { c.resmp1 };
        if !enabled || resmp {
            return false;
        }
        // Missile width from NUSIZ bits 4-5
        assert((nusiz >> 4u8) & 0x03u8 < 4) by (bit_vector);
        let width: u16 = 1u16 << ((nusiz >> 4) & 0x03);
        let (n, o1, o2) = copies(nusiz);
        let d0 = distance_to(x, pos, 0);
        if d0 < width && d0 < 80 {
            return true;
        }
        if n >= 2 {
            let d1 = distance_to(x, pos, o1);
            if d1 < width && d1 < 80 {
                return true;
            }
        }
        if n >= 3 {
            let d2 = distance_to(x, pos, o2);
            if d2 < width && d2 < 80 {
                return true;
            }
        }
        false
    }

    /// Ball pixel test with CTRLPF size.
    fn get_ball_pixel(&self, x: u8) -> (r: bool)
        requires
            self.core.pos_bl < 160,
        ensures
            r == self.spec_ball_pixel(x),
    {
        let enabled = if self.core.vdelbl { self.core.enabl_old } else { self.core.enabl };
        if !enabled {
            return false;
        }
        // Ball width from CTRLPF bits 4-5
        let cp = self.core.ctrlpf;
        assert((cp >> 4u8) & 0x03u8 < 4) by (bit_vector);
        let width: u16 = 1u16 << ((cp >> 4) & 0x03);
        let offset = distance_to(x, self.core.pos_bl, 0);
        offset < width && offset < 80
    }

    /// Pixel colour and per-object hits at visible column `x`:
    /// (color, p0, p1, m0, m1, bl, pf).
    fn compute_pixel(&self, x: u8) -> (r: (u8, bool, bool, bool, bool, bool, bool))
        requires
            x < 160,
            self.core.wf(),
        ensures
            r == (
                self.spec_color(x),
                self.spec_player_pixel(0, x),
                self.spec_player_pixel(1, x),
                self.spec_missile_pixel(0, x),
                self.spec_missile_pixel(1, x),
                self.spec_ball_pixel(x),
                self.spec_playfield_bit(x),
            ),
    {
        let pf = self.get_playfield_bit(x);
        let p0 = self.get_player_pixel(0, x);
        let p1 = self.get_player_pixel(1, x);
        let m0 = self.get_missile_pixel(0, x);
        let m1 = self.get_missile_pixel(1, x);
        let bl = self.get_ball_pixel(x);
        let c = &self.core;
        let pf_priority = c.ctrlpf & 0x04 != 0;
        let score_mode = c.ctrlpf & 0x02 != 0;
        let pf_color = if score_mode {
            if x < 80 { c.colup0 } else { c.colup1 }
        } else {
            c.colupf
        };
        let color = if pf_priority {
            if pf || bl {
                pf_color
            } else if p0 || m0 {
                c.colup0
            } else if p1 || m1 {
                c.colup1
            } else {
                c.colubk
            }
        } else {
            if p0 || m0 {
                c.colup0
            } else if p1 || m1 {
                c.colup1
            } else if pf || bl {
                pf_color
            } else {
                c.colubk
            }
        };
        (color, p0, p1, m0, m1, bl, pf)
    }

    fn render_pixel(&mut self)
        requires
            old(self).wf(),
            old(self).beam_visible(),
        ensures
            *final(self) == old(self).spec_render(),
            final(self).wf(),
    {
        let hblank_end: u16 = if self.hmove_pending { 76 } else { 68 };
        let x = (self.core.clock - hblank_end) as u8;
        let (color, p0, p1, m0, m1, bl, pf) = self.compute_pixel(x);
        let idx = self.render_line as usize * 160 + x as usize;
        self.framebuffer[idx] = color;
        proof {
            broadcast use vstd::array::group_array_axioms;

            assert(*self.framebuffer =~= spec_array_update(*old(self).framebuffer, idx as int, color));
        }
        let c = self.core;
        self.core = HeadlessTia {
            cxm0p: c.cxm0p | (if m0 && p1 { 0x80u8 } else { 0u8 }) | (if m0 && p0 { 0x40u8 } else { 0u8 }),
            cxm1p: c.cxm1p | (if m1 && p0 { 0x80u8 } else { 0u8 }) | (if m1 && p1 { 0x40u8 } else { 0u8 }),
            cxp0fb: c.cxp0fb | (if p0 && pf { 0x80u8 } else { 0u8 }) | (if p0 && bl { 0x40u8 } else { 0u8 }),
            cxp1fb: c.cxp1fb | (if p1 && pf { 0x80u8 } else { 0u8 }) | (if p1 && bl { 0x40u8 } else { 0u8 }),
            cxm0fb: c.cxm0fb | (if m0 && pf { 0x80u8 } else { 0u8 }) | (if m0 && bl { 0x40u8 } else { 0u8 }),
            cxm1fb: c.cxm1fb | (if m1 && pf { 0x80u8 } else { 0u8 }) | (if m1 && bl { 0x40u8 } else { 0u8 }),
            cxblpf: c.cxblpf | (if bl && pf { 0x80u8 } else { 0u8 }) | 0u8,
            cxppmm: c.cxppmm | (if p0 && p1 { 0x80u8 } else { 0u8 }) | (if m0 && m1 { 0x40u8 } else { 0u8 }),
            ..c
        };
    }

    /// Advance the TIA by one TIA clock (3 per CPU cycle).
    /// Renders pixels, detects collisions, and tracks scanline/frame progress.
    pub fn tick(&mut self)
        requires
            old(self).wf(),
        ensures
            *final(self) == old(self).spec_tick(),
            final(self).wf(),
    {
        // HBLANK boundary: normally clock 68, extended to 76 after HMOVE
        let hblank_end: u16 = if self.hmove_pending { 76 } else { 68 };
        if self.core.clock >= hblank_end && self.core.clock - hblank_end < 160 && self.core.vblank
            & 0x02 == 0 && self.render_line < 192 {
            self.render_pixel();
        }
        if self.core.clock + 1 >= 228 {
            let mut c = HeadlessTia { clock: 228, ..self.core };
            c.end_scanline();
            self.core = c;
            self.hmove_pending = false;
            if self.core.vblank & 0x02 == 0 && self.render_line < 192 {
                self.render_line = self.render_line + 1;
            }
        } else {
            self.core = HeadlessTia { clock: self.core.clock + 1, ..self.core };
        }
    }
}


/// Beam and frame timing of a register file: beam clock, scanline, WSYNC
/// halt, frame-complete latch and paddle charge timer.
pub open spec fn timing(h: HeadlessTia) -> (u16, u16, bool, bool, u16) {
    (h.clock, h.scanline, h.wsync, h.frame_complete, h.paddle_counter)
}

/// One TIA clock of beam timing: the scanline wraps after 228 clocks
/// (releasing WSYNC and charging an undumped paddle), the frame after 262
/// scanlines.
pub open spec fn timing_step(tm: (u16, u16, bool, bool, u16), dumped: bool) -> (
    u16,
    u16,
    bool,
    bool,
    u16,
) {
    let (clock, line, ws, fc, pc) = tm;
    if clock + 1 >= 228 {
        let l = line + 1;
        (
            0,
            if l >= 262 {
                0
            } else {
                l as u16
            },
            false,
            if l >= 262 {
                true
            } else {
                fc
            },
            if !dumped && pc < 256 {
                (pc + 1) as u16
            } else {
                pc
            },
        )
    } else {
        ((clock + 1) as u16, line, ws, fc, pc)
    }
}

/// One clock of the rendering TIA keeps it valid, keeps the paddle dump
/// flag, and steps its timing.
#[verifier::spinoff_prover]
proof fn lemma_tick_timing(t: Tia)
    requires
        t.wf(),
    ensures
        t.spec_tick().wf(),
        t.spec_tick().core.paddle_dumped == t.core.paddle_dumped,
        timing(t.spec_tick().core) == timing_step(timing(t.core), t.core.paddle_dumped),
{
    if t.beam_visible() {
        let r = t.spec_render();
        assert(r.core.clock == t.core.clock && r.core.scanline == t.core.scanline && r.core.wsync
            == t.core.wsync && r.core.frame_complete == t.core.frame_complete
            && r.core.paddle_counter == t.core.paddle_counter && r.core.paddle_dumped
            == t.core.paddle_dumped && r.render_line == t.render_line && r.core.wf());
    }
}

/// A headless CPU cycle is three clocks of beam timing.
proof fn lemma_headless_cycle_timing(h: HeadlessTia)
    requires
        h.wf(),
    ensures
        timing(h.spec_tick_n(1)) == timing_step(
            timing_step(timing_step(timing(h), h.paddle_dumped), h.paddle_dumped),
            h.paddle_dumped,
        ),
{
}

/// The rendering TIA keeps the headless TIA's timing: three TIA clocks move
/// the beam, the scanline, the WSYNC release, the frame-complete latch and
/// the paddle timer exactly as one headless CPU cycle does.
pub proof fn lemma_tick_matches_headless(t: Tia)
    requires
        t.wf(),
    ensures
        timing(t.spec_tick().spec_tick().spec_tick().core) == timing(t.core.spec_tick_n(1)),
{
    lemma_tick_timing(t);
    let t1 = t.spec_tick();
    lemma_tick_timing(t1);
    let t2 = t1.spec_tick();
    lemma_tick_timing(t2);
    lemma_headless_cycle_timing(t.core);
}

/// The right half of the playfield is the left half again: mirrored with
/// CTRLPF bit 0 set (column `x` shows column 159 - x), repeated with it
/// clear (column `x` shows column x - 80).
pub proof fn lemma_playfield_halves(t: Tia, x: u8)
    requires
        80 <= x < 160,
    ensures
        t.core.ctrlpf & 0x01 != 0 ==> t.spec_playfield_bit(x) == t.spec_playfield_bit((159 - x) as u8),
        t.core.ctrlpf & 0x01 == 0 ==> t.spec_playfield_bit(x) == t.spec_playfield_bit((x - 80) as u8),
{
    assert(19 - (x - 80) / 4 == (159 - x) / 4) by (nonlinear_arith)
        requires
            80 <= x < 160,
    ;
}

} // verus!
