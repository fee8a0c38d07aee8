//! Atari 2600 console: ties CPU, TIA, PIA and cartridge ROM together.
use vstd::prelude::*;
use vstd::array::spec_array_update;
use crate::cpu::{Cpu, Memory, Status};
use crate::headless_tia::HeadlessTia;
use crate::isa::{step_spec, word, lemma_step_matches_tables};
use crate::pia::{Pia, lemma_ticks_timer_only};
use crate::rom_compiler::{CYCLE_TABLE, is_legal_opcode, lemma_tables_small};
use crate::tia::{Tia, FRAME_PIXELS};

verus! {

/// Atari 2600 joystick actions (the 18-action set of the Arcade Learning
/// Environment), in index order.
#[derive(Clone, Copy, Debug, PartialEq, Eq, Structural)]
pub enum Action {
    Noop,
    Fire,
    Up,
    Right,
    Left,
    Down,
    UpRight,
    UpLeft,
    DownRight,
    DownLeft,
    UpFire,
    RightFire,
    LeftFire,
    DownFire,
    UpRightFire,
    UpLeftFire,
    DownRightFire,
    DownLeftFire,
}

/// The action with index `i` (out-of-range indices mean no-op).
pub open spec fn action_at(i: usize) -> Action {
    if i == 0 {
        Action::Noop
    } else if i == 1 {
        Action::Fire
    } else if i == 2 {
        Action::Up
    } else if i == 3 {
        Action::Right
    } else if i == 4 {
        Action::Left
    } else if i == 5 {
        Action::Down
    } else if i == 6 {
        Action::UpRight
    } else if i == 7 {
        Action::UpLeft
    } else if i == 8 {
        Action::DownRight
    } else if i == 9 {
        Action::DownLeft
    } else if i == 10 {
        Action::UpFire
    } else if i == 11 {
        Action::RightFire
    } else if i == 12 {
        Action::LeftFire
    } else if i == 13 {
        Action::DownFire
    } else if i == 14 {
        Action::UpRightFire
    } else if i == 15 {
        Action::UpLeftFire
    } else if i == 16 {
        Action::DownRightFire
    } else if i == 17 {
        Action::DownLeftFire
    } else {
        Action::Noop
    }
}

impl Action {
    /// Joystick state of the action: (up, down, left, right, fire).
    pub open spec fn spec_decode(self) -> (bool, bool, bool, bool, bool) {
        match self {
            Action::Noop => (false, false, false, false, false),
            Action::Fire => (false, false, false, false, true),
            Action::Up => (true, false, false, false, false),
            Action::Right => (false, false, false, true, false),
            Action::Left => (false, false, true, false, false),
            Action::Down => (false, true, false, false, false),
            Action::UpRight => (true, false, false, true, false),
            Action::UpLeft => (true, false, true, false, false),
            Action::DownRight => (false, true, false, true, false),
            Action::DownLeft => (false, true, true, false, false),
            Action::UpFire => (true, false, false, false, true),
            Action::RightFire => (false, false, false, true, true),
            Action::LeftFire => (false, false, true, false, true),
            Action::DownFire => (false, true, false, false, true),
            Action::UpRightFire => (true, false, false, true, true),
            Action::UpLeftFire => (true, false, true, false, true),
            Action::DownRightFire => (false, true, false, true, true),
            Action::DownLeftFire => (false, true, true, false, true),
        }
    }

    pub fn from_index(i: usize) -> (r: Self)
        ensures
            r == action_at(i),
    {
        match i {
            0 => Action::Noop,
            1 => Action::Fire,
            2 => Action::Up,
            3 => Action::Right,
            4 => Action::Left,
            5 => Action::Down,
            6 => Action::UpRight,
            7 => Action::UpLeft,
            8 => Action::DownRight,
            9 => Action::DownLeft,
            10 => Action::UpFire,
            11 => Action::RightFire,
            12 => Action::LeftFire,
            13 => Action::DownFire,
            14 => Action::UpRightFire,
            15 => Action::UpLeftFire,
            16 => Action::DownRightFire,
            17 => Action::DownLeftFire,
            _ => Action::Noop,
        }
    }

    /// Decode into (up, down, left, right, fire).
    pub fn decode(self) -> (r: (bool, bool, bool, bool, bool))
        ensures
            r == self.spec_decode(),
    {
        match self {
            Action::Noop => (false, false, false, false, false),
            Action::Fire => (false, false, false, false, true),
            Action::Up => (true, false, false, false, false),
            Action::Right => (false, false, false, true, false),
            Action::Left => (false, false, true, false, false),
            Action::Down => (false, true, false, false, false),
            Action::UpRight => (true, false, false, true, false),
            Action::UpLeft => (true, false, true, false, false),
            Action::DownRight => (false, true, false, true, false),
            Action::DownLeft => (false, true, true, false, false),
            Action::UpFire => (true, false, false, false, true),
            Action::RightFire => (false, false, false, true, true),
            Action::LeftFire => (false, false, true, false, true),
            Action::DownFire => (false, true, false, false, true),
            Action::UpRightFire => (true, false, false, true, true),
            Action::UpLeftFire => (true, false, true, false, true),
            Action::DownRightFire => (false, true, false, true, true),
            Action::DownLeftFire => (false, true, true, false, true),
        }
    }
}

/// No action pushes the stick two opposite ways at once.
pub proof fn lemma_decode_no_opposites(a: Action)
    ensures
        !(a.spec_decode().0 && a.spec_decode().1),
        !(a.spec_decode().2 && a.spec_decode().3),
{
}

/// The 18 indices name 18 different actions, index 0 is the no-op, and every
/// index past the set means no-op.
pub proof fn lemma_action_indices(i: usize, j: usize)
    ensures
        i < 18 && j < 18 && i != j ==> action_at(i) != action_at(j),
        i >= 18 ==> action_at(i) == Action::Noop,
        action_at(0) == Action::Noop,
{
}

/// Every action is the image of an index below 18.
pub proof fn lemma_action_onto(a: Action)
    ensures
        exists|i: usize| i < 18 && action_at(i) == a,
{
    match a {
        Action::Noop => assert(action_at(0) == a),
        Action::Fire => assert(action_at(1) == a),
        Action::Up => assert(action_at(2) == a),
        Action::Right => assert(action_at(3) == a),
        Action::Left => assert(action_at(4) == a),
        Action::Down => assert(action_at(5) == a),
        Action::UpRight => assert(action_at(6) == a),
        Action::UpLeft => assert(action_at(7) == a),
        Action::DownRight => assert(action_at(8) == a),
        Action::DownLeft => assert(action_at(9) == a),
        Action::UpFire => assert(action_at(10) == a),
        Action::RightFire => assert(action_at(11) == a),
        Action::LeftFire => assert(action_at(12) == a),
        Action::DownFire => assert(action_at(13) == a),
        Action::UpRightFire => assert(action_at(14) == a),
        Action::UpLeftFire => assert(action_at(15) == a),
        Action::DownRightFire => assert(action_at(16) == a),
        Action::DownLeftFire => assert(action_at(17) == a),
    }
}

/// Bank switching scheme, auto-detected from ROM size.
#[derive(Clone, Copy, Debug, PartialEq, Eq, Structural)]
pub enum BankScheme {
    /// 2K or 4K — no bankswitching, simple mirroring.
    Fixed,
    /// F8 — 8K, two 4K banks. Hotspots: $1FF8 (bank 0), $1FF9 (bank 1).
    F8,
    /// F6 — 16K, four 4K banks. Hotspots: $1FF6–$1FF9.
    F6,
    /// F4 — 32K, eight 4K banks. Hotspots: $1FF4–$1FFB.
    F4,
}

impl BankScheme {
    pub fn detect(rom_len: usize) -> (r: Self)
        ensures
            rom_len <= 4096 ==> r == BankScheme::Fixed,
            4096 < rom_len <= 8192 ==> r == BankScheme::F8,
            8192 < rom_len <= 16384 ==> r == BankScheme::F6,
            16384 < rom_len ==> r == BankScheme::F4,
    {
        if rom_len <= 4096 {
            BankScheme::Fixed
        } else if rom_len <= 8192 {
            BankScheme::F8
        } else if rom_len <= 16384 {
            BankScheme::F6
        } else {
            BankScheme::F4
        }
    }
}


/// Scheme chosen for a ROM of `rom_len` bytes.
pub open spec fn scheme_for(rom_len: int) -> BankScheme {
    if rom_len <= 4096 {
        BankScheme::Fixed
    } else if rom_len <= 8192 {
        BankScheme::F8
    } else if rom_len <= 16384 {
        BankScheme::F6
    } else {
        BankScheme::F4
    }
}

/// Number of 4K banks a scheme switches between.
pub open spec fn bank_count(scheme: BankScheme) -> usize {
    match scheme {
        BankScheme::Fixed => 1,
        BankScheme::F8 => 2,
        BankScheme::F6 => 4,
        BankScheme::F4 => 8,
    }
}

/// The bank selected at power-on: the last one, where the reset vector lives.
pub open spec fn start_bank(scheme: BankScheme) -> usize {
    (bank_count(scheme) - 1) as usize
}

/// The bank an access to `addr` switches to, if `addr` is a hotspot of the
/// scheme.
pub open spec fn hotspot_bank(scheme: BankScheme, addr: u16) -> Option<usize> {
    let a = addr & 0x1FFF;
    match scheme {
        BankScheme::Fixed => None,
        BankScheme::F8 => if 0x1FF8 <= a <= 0x1FF9 {
            Some((a - 0x1FF8) as usize)
        } else {
            None
        },
        BankScheme::F6 => if 0x1FF6 <= a <= 0x1FF9 {
            Some((a - 0x1FF6) as usize)
        } else {
            None
        },
        BankScheme::F4 => if 0x1FF4 <= a <= 0x1FFB {
            Some((a - 0x1FF4) as usize)
        } else {
            None
        },
    }
}

/// The hotspots of each scheme, in bank order: an access whose low 13 bits
/// are $1FF8 + k (F8), $1FF6 + k (F6) or $1FF4 + k (F4) selects bank k;
/// every other address, and every address of an unbanked cartridge,
/// selects nothing.
pub proof fn lemma_hotspots(addr: u16, k: usize)
    ensures
        hotspot_bank(BankScheme::Fixed, addr) is None,
        k < 2 && addr & 0x1FFF == 0x1FF8 + k ==> hotspot_bank(BankScheme::F8, addr) == Some(k),
        k < 4 && addr & 0x1FFF == 0x1FF6 + k ==> hotspot_bank(BankScheme::F6, addr) == Some(k),
        k < 8 && addr & 0x1FFF == 0x1FF4 + k ==> hotspot_bank(BankScheme::F4, addr) == Some(k),
        !(0x1FF8 <= addr & 0x1FFF < 0x1FF8 + 2) ==> hotspot_bank(BankScheme::F8, addr) is None,
        !(0x1FF6 <= addr & 0x1FFF < 0x1FF6 + 4) ==> hotspot_bank(BankScheme::F6, addr) is None,
        !(0x1FF4 <= addr & 0x1FFF < 0x1FF4 + 8) ==> hotspot_bank(BankScheme::F4, addr) is None,
        hotspot_bank(BankScheme::F8, addr) matches Some(b) ==> b < 2,
        hotspot_bank(BankScheme::F6, addr) matches Some(b) ==> b < 4,
        hotspot_bank(BankScheme::F4, addr) matches Some(b) ==> b < 8,
{
}

/// Byte `off` (below 4096) of the 4K cartridge window with `bank` selected:
/// small ROMs are mirrored across the window; banked ROMs read 0 past their end.
pub open spec fn bank_byte(rom: Seq<u8>, scheme: BankScheme, bank: usize, off: int) -> u8 {
    if scheme == BankScheme::Fixed {
        rom[off % rom.len() as int]
    } else {
        let i = bank * 4096 + off;
        if i < rom.len() {
            rom[i]
        } else {
            0
        }
    }
}

/// Bank selected after an access to `addr`.
fn switched_bank(scheme: BankScheme, bank: usize, addr: u16) -> (r: usize)
    ensures
        r == match hotspot_bank(scheme, addr) {
            Some(b) => b,
            None => bank,
        },
{
    let a = addr & 0x1FFF;
    match scheme {
        BankScheme::Fixed => bank,
        BankScheme::F8 => if a == 0x1FF8 {
            0
        } else if a == 0x1FF9 {
            1
        } else {
            bank
        },
        BankScheme::F6 => if a == 0x1FF6 {
            0
        } else if a == 0x1FF7 {
            1
        } else if a == 0x1FF8 {
            2
        } else if a == 0x1FF9 {
            3
        } else {
            bank
        },
        BankScheme::F4 => if a == 0x1FF4 {
            0
        } else if a == 0x1FF5 {
            1
        } else if a == 0x1FF6 {
            2
        } else if a == 0x1FF7 {
            3
        } else if a == 0x1FF8 {
            4
        } else if a == 0x1FF9 {
            5
        } else if a == 0x1FFA {
            6
        } else if a == 0x1FFB {
            7
        } else {
            bank
        },
    }
}

/// Bank selected at power-on for a scheme.
fn initial_bank(scheme: BankScheme) -> (r: usize)
    ensures
        r == start_bank(scheme),
{
    match scheme {
        BankScheme::Fixed => 0,
        BankScheme::F8 => 1,
        BankScheme::F6 => 3,
        BankScheme::F4 => 7,
    }
}

/// The Atari 2600 memory bus, visible to the CPU.
pub struct Bus {
    pub tia: Tia,
    pub pia: Pia,
    pub rom: Vec<u8>,
    pub bank: usize,
    pub scheme: BankScheme,
}

impl Bus {
    /// A non-empty ROM, a bank the scheme has, and devices in a runnable state.
    pub open spec fn wf(self) -> bool {
        &&& self.tia.wf()
        &&& self.pia.tick_ready()
        &&& self.rom@.len() > 0
        &&& self.bank < bank_count(self.scheme)
    }

    /// The bus after the bankswitch hotspot check for an access to `addr`.
    pub open spec fn spec_switch(self, addr: u16) -> Bus {
        match hotspot_bank(self.scheme, addr) {
            Some(b) => Bus { bank: b, ..self },
            None => self,
        }
    }

    /// Byte of the selected ROM bank under `addr`.
    pub open spec fn spec_rom_read(self, addr: u16) -> u8 {
        bank_byte(self.rom@, self.scheme, self.bank, (addr & 0x0FFF) as int)
    }

    /// Whether `a` (a 13-bit address) selects the PIA: RAM at $80–$FF or I/O
    /// at $280–$29F, with their mirrors.
    pub open spec fn is_pia(a: u16) -> bool {
        a & 0x1080 != 0 && (a & 0x1280 == 0x0080 || a & 0x1280 == 0x0280)
    }

    /// The value a CPU read of `addr` returns.
    pub open spec fn spec_read(self, addr: u16) -> u8 {
        let b = self.spec_switch(addr);
        let a = addr & 0x1FFF;
        if a & 0x1080 == 0 {
            b.tia.core.spec_read(a)
        } else if Bus::is_pia(a) {
            b.pia.spec_read(a)
        } else if a & 0x1000 == 0x1000 {
            b.spec_rom_read(a)
        } else {
            0
        }
    }

    /// The bus after a CPU read of `addr`.
    pub open spec fn spec_after_read(self, addr: u16) -> Bus {
        let b = self.spec_switch(addr);
        let a = addr & 0x1FFF;
        if a & 0x1080 != 0 && Bus::is_pia(a) {
            Bus { pia: b.pia.spec_after_read(a), ..b }
        } else {
            b
        }
    }

    /// The bus after a CPU write of `val` to `addr`.
    pub open spec fn spec_write(self, addr: u16, val: u8) -> Bus {
        let b = self.spec_switch(addr);
        let a = addr & 0x1FFF;
        if a & 0x1080 == 0 {
            Bus { tia: b.tia.spec_write(a, val), ..b }
        } else if Bus::is_pia(a) {
            Bus { pia: b.pia.spec_write(a, val), ..b }
        } else {
            b
        }
    }

    /// Power-on bus for a ROM image.
    pub open spec fn spec_new(rom: Vec<u8>) -> Bus {
        let scheme = scheme_for(rom@.len() as int);
        Bus { tia: Tia::spec_new(), pia: Pia::spec_new(), rom, bank: start_bank(scheme), scheme }
    }

    fn new(rom: Vec<u8>) -> (r: Self)
        requires
            rom@.len() > 0,
        ensures
            r == Bus::spec_new(rom),
            r.wf(),
    {
        let scheme = BankScheme::detect(rom.len());
        // Default to last bank (where reset vector lives)
        let bank = initial_bank(scheme);
        Bus { tia: Tia::new(), pia: Pia::new(), rom, bank, scheme }
    }

    /// Read from the currently selected ROM bank.
    fn rom_read(&self, addr: u16) -> (r: u8)
        requires
            self.wf(),
        ensures
            r == self.spec_rom_read(addr),
    {
        match self.scheme {
            BankScheme::Fixed => {
                let index = (addr & 0x0FFF) as usize % self.rom.len();
                self.rom[index]
            },
            _ => {
                let offset = self.bank * 4096 + (addr & 0x0FFF) as usize;
                if offset < self.rom.len() {
                    self.rom[offset]
                } else {
                    0
                }
            },
        }
    }

    /// Check for bankswitching hotspot access and switch bank if needed.
    fn check_bankswitch(&mut self, addr: u16)
        requires
            old(self).wf(),
        ensures
            *final(self) == old(self).spec_switch(addr),
            final(self).wf(),
    {
        let nb = switched_bank(self.scheme, self.bank, addr);
        if nb != self.bank {
            self.bank = nb;
        }
    }

    /// Put joystick pins, the player 0 fire latch and the player 0 paddle in place.
    fn set_inputs(&mut self, swcha: u8, fire_line: bool, paddle: u8)
        ensures
            *final(self) == (Bus {
                pia: Pia { port_a_input: swcha, ..old(self).pia },
                tia: Tia {
                    core: HeadlessTia { inpt4: fire_line, paddle0: paddle, ..old(self).tia.core },
                    ..old(self).tia
                },
                ..*old(self)
            }),
    {
        self.pia.set_port_a_input(swcha);
        // Fire button via TIA input latch (active low: false = pressed)
        let core = HeadlessTia { inpt4: fire_line, paddle0: paddle, ..self.tia.core };
        self.tia.core = core;
    }
}

/// A PIA write keeps its timer runnable.
proof fn lemma_pia_write_ready(p: Pia, addr: u16, val: u8)
    requires
        p.tick_ready(),
    ensures
        p.spec_write(addr, val).tick_ready(),
        p.spec_after_read(addr).tick_ready(),
{
}

impl Memory for Bus {
    type Model = Bus;

    open spec fn model(&self) -> Bus {
        *self
    }

    open spec fn ready(m: Bus) -> bool {
        m.wf()
    }

    open spec fn read_value(m: Bus, addr: u16) -> u8 {
        m.spec_read(addr)
    }

    open spec fn after_read(m: Bus, addr: u16) -> Bus {
        m.spec_after_read(addr)
    }

    open spec fn after_write(m: Bus, addr: u16, val: u8) -> Bus {
        m.spec_write(addr, val)
    }

    fn read(&mut self, addr: u16) -> (r: u8) {
        self.check_bankswitch(addr);
        let a = addr & 0x1FFF;
        if a & 0x1080 == 0 {
            // TIA read registers: $00–$0D (A12=0, A7=0)
            self.tia.read(a)
        } else if a & 0x1280 == 0x0080 || a & 0x1280 == 0x0280 {
            // PIA RAM: $80–$FF (A12=0, A9=0, A7=1); PIA I/O: $280–$29F
            proof {
                lemma_pia_write_ready(self.pia, a, 0);
            }
            self.pia.read(a)
        } else if a & 0x1000 == 0x1000 {
            // Cartridge ROM: $1000–$1FFF (A12=1)
            self.rom_read(a)
        } else {
            0
        }
    }

    fn write(&mut self, addr: u16, val: u8) {
        self.check_bankswitch(addr);
        let a = addr & 0x1FFF;
        if a & 0x1080 == 0 {
            // TIA write registers: $00–$2C (A12=0, A7=0)
            self.tia.write(a, val);
        } else if a & 0x1280 == 0x0080 || a & 0x1280 == 0x0280 {
            // PIA RAM ($80–$FF) and PIA I/O ($280–$29F)
            proof {
                lemma_pia_write_ready(self.pia, a, val);
            }
            self.pia.write(a, val);
        }
    }
}

/// Touching hotspot $1FF6 + k of an F6 cartridge (likewise $1FF8 + k for
/// F8, $1FF4 + k for F4) selects bank k on both buses; any other address
/// leaves the bank as it was.
pub proof fn lemma_bus_hotspot_switch(b: Bus, m: HeadlessState, addr: u16, k: usize)
    requires
        b.scheme == m.scheme,
    ensures
        b.scheme == BankScheme::F6 && k < 4 && addr & 0x1FFF == 0x1FF6 + k ==> b.spec_switch(addr).bank
            == k && m.spec_switch(addr).bank == k,
        b.scheme == BankScheme::F8 && k < 2 && addr & 0x1FFF == 0x1FF8 + k ==> b.spec_switch(addr).bank
            == k && m.spec_switch(addr).bank == k,
        b.scheme == BankScheme::F4 && k < 8 && addr & 0x1FFF == 0x1FF4 + k ==> b.spec_switch(addr).bank
            == k && m.spec_switch(addr).bank == k,
        hotspot_bank(b.scheme, addr) is None ==> b.spec_switch(addr).bank == b.bank && m.spec_switch(
            addr,
        ).bank == m.bank,
{
    lemma_hotspots(addr, k);
}

/// On the console bus a read of PIA RAM returns the last value written to it,
/// through any of its mirrors (zero page $80–$FF and stack page $180–$1FF),
/// and a RAM read has no side effect.
pub proof fn lemma_bus_ram_read_after_write(m: Bus, addr: u16, other: u16, val: u8)
    requires
        m.wf(),
        (addr & 0x1FFF) & 0x1280 == 0x0080,
        (other & 0x1FFF) & 0x1280 == 0x0080,
    ensures
        (other & 0x7F) == (addr & 0x7F) ==> m.spec_write(addr, val).spec_read(other) == val,
        (other & 0x7F) != (addr & 0x7F) ==> m.spec_write(addr, val).spec_read(other)
            == m.spec_read(other),
        m.spec_after_read(other) == m,
{
    assert((addr & 0x1FFF) & 0x1280 == 0x0080 ==> (addr & 0x1FFF) < 0x1000 && (addr & 0x1FFF)
        & 0x1080 != 0 && (addr & 0x1FFF) & 0x200 == 0 && (addr & 0x1FFF) & 0x7F == addr & 0x7F
        && addr & 0x7F < 128) by (bit_vector);
    assert((other & 0x1FFF) & 0x1280 == 0x0080 ==> (other & 0x1FFF) < 0x1000 && (other & 0x1FFF)
        & 0x1080 != 0 && (other & 0x1FFF) & 0x200 == 0 && (other & 0x1FFF) & 0x7F == other
        & 0x7F && other & 0x7F < 128) by (bit_vector);
    broadcast use vstd::array::group_array_axioms;
}


/// Port A pins for a joystick state: the P0 direction bits (4 up, 5 down,
/// 6 left, 7 right) are pulled low while pressed; the rest stay high.
pub open spec fn joystick_port(up: bool, down: bool, left: bool, right: bool) -> u8 {
    0x0Fu8 | (if up {
        0u8
    } else {
        0x10u8
    }) | (if down {
        0u8
    } else {
        0x20u8
    }) | (if left {
        0u8
    } else {
        0x40u8
    }) | (if right {
        0u8
    } else {
        0x80u8
    })
}

/// Paddle position that stands for a joystick state: left 200, right 50,
/// otherwise centred.
pub open spec fn joystick_paddle(left: bool, right: bool) -> u8 {
    if left {
        200
    } else if right {
        50
    } else {
        128
    }
}

/// SWCHA value for a joystick state.
fn port_a_bits(up: bool, down: bool, left: bool, right: bool) -> (r: u8)
    ensures
        r == joystick_port(up, down, left, right),
{
    // Active low: 0 = pressed
    let up_mask: u8 = if up { !0x10u8 } else { 0xFFu8 };
    let down_mask: u8 = if down { !0x20u8 } else { 0xFFu8 };
    let left_mask: u8 = if left { !0x40u8 } else { 0xFFu8 };
    let right_mask: u8 = if right { !0x80u8 } else { 0xFFu8 };
    let swcha: u8 = 0xFFu8 & up_mask & down_mask & left_mask & right_mask;
    assert(swcha == joystick_port(up, down, left, right)) by (bit_vector)
        requires
            up_mask == (if up { !0x10u8 } else { 0xFFu8 }),
            down_mask == (if down { !0x20u8 } else { 0xFFu8 }),
            left_mask == (if left { !0x40u8 } else { 0xFFu8 }),
            right_mask == (if right { !0x80u8 } else { 0xFFu8 }),
            swcha == 0xFFu8 & up_mask & down_mask & left_mask & right_mask,
    ;
    swcha
}

/// CPU cycles the console lets the beam run ahead of an instruction with
/// opcode `op` (its table count; 2 when the table has none).
pub open spec fn lead_cycles(op: u8) -> u8 {
    if CYCLE_TABLE[op as int] == 0 {
        2
    } else {
        CYCLE_TABLE[op as int]
    }
}

impl Bus {
    /// One CPU cycle of the devices: three TIA clocks and one PIA clock.
    pub open spec fn spec_tick_cycle(self) -> Bus {
        Bus { tia: self.tia.spec_tick().spec_tick().spec_tick(), pia: self.pia.spec_tick(), ..self }
    }

    /// `n` CPU cycles of the devices.
    pub open spec fn spec_tick_cycles(self, n: nat) -> Bus
        decreases n,
    {
        if n == 0 {
            self
        } else {
            self.spec_tick_cycles((n - 1) as nat).spec_tick_cycle()
        }
    }

    /// The bus with the joystick state of `action` on its input pins.
    pub open spec fn spec_set_action(self, action: Action) -> Bus {
        let (up, down, left, right, fire) = action.spec_decode();
        Bus {
            pia: Pia { port_a_input: joystick_port(up, down, left, right), ..self.pia },
            tia: Tia {
                core: HeadlessTia {
                    inpt4: !fire,
                    paddle0: joystick_paddle(left, right),
                    ..self.tia.core
                },
                ..self.tia
            },
            ..self
        }
    }
}

/// Atari 2600 console.
pub struct Atari {
    pub cpu: Cpu,
    pub bus: Bus,
    /// Pending TIA/PIA ticks from the previous CPU instruction.
    /// Flushed before the next instruction executes, so register
    /// writes land at the correct beam position.
    pub pending_cycles: u64,
}

/// Whether the TIA's VSYNC bit is on.
pub open spec fn vsync_on(t: HeadlessTia) -> bool {
    t.vsync & 0x02 != 0
}

impl Atari {
    pub open spec fn wf(self) -> bool {
        self.bus.wf() && self.pending_cycles == 0
    }

    /// The console with `bus` in place of its bus.
    pub open spec fn with_bus(self, bus: Bus) -> Atari {
        Atari { bus, ..self }
    }

    /// The console with `cpu` and `bus` in place.
    pub open spec fn with_parts(self, cpu: Cpu, bus: Bus) -> Atari {
        Atari { cpu, bus, ..self }
    }

    /// Power-on console for a ROM: devices reset, CPU started at the reset
    /// vector read through the bus.
    pub open spec fn spec_new(rom: Vec<u8>) -> Atari {
        let b0 = Bus::spec_new(rom);
        let lo = b0.spec_read(0xFFFC);
        let b1 = b0.spec_after_read(0xFFFC);
        let hi = b1.spec_read(0xFFFD);
        Atari {
            cpu: Cpu { pc: word(lo, hi), ..Cpu::spec_default() },
            bus: b1.spec_after_read(0xFFFD),
            pending_cycles: 0,
        }
    }

    /// One scheduling step: a WSYNC-halted cycle, or one instruction with the
    /// beam run ahead by its table count less one before it and the rest
    /// after it. `None` where the instruction is not one the CPU implements
    /// or the CPU cycle counter is exhausted.
    #[verifier::opaque]
    pub open spec fn spec_run_one_cycle(self) -> Option<(Atari, u64)> {
        if self.bus.tia.core.wsync {
            Some((self.with_bus(self.bus.spec_tick_cycle()), 1))
        } else {
            self.spec_instruction()
        }
    }

    /// One instruction, with the beam run ahead by the opcode's table count
    /// less one before it and the rest of its cycles after it.
    pub open spec fn spec_instruction(self) -> Option<(Atari, u64)> {
        let op = self.bus.spec_read(self.cpu.pc);
        let c = lead_cycles(op);
        let b2 = self.bus.spec_after_read(self.cpu.pc).spec_tick_cycles((c - 1) as nat);
        if self.cpu.cycles > u64::MAX - 7 || !is_legal_opcode(b2.spec_read(self.cpu.pc)) {
            None
        } else {
            let (cpu2, b3, actual) = step_spec::<Bus>(self.cpu, b2);
            let rest: nat = if actual >= c - 1 {
                (actual - (c - 1)) as nat
            } else {
                0
            };
            Some((self.with_parts(cpu2, b3.spec_tick_cycles(rest)), actual as u64))
        }
    }

    /// The console with its joystick inputs set for `action`.
    pub open spec fn spec_set_action(self, action: Action) -> Atari {
        self.with_bus(self.bus.spec_set_action(action))
    }

    /// The console with the TIA's frame-complete latch cleared.
    pub open spec fn frame_start(self) -> Atari {
        self.with_bus(
            Bus {
                tia: Tia { core: HeadlessTia { frame_complete: false, ..self.bus.tia.core }, ..self.bus.tia },
                ..self.bus
            },
        )
    }
}

/// State and cycle total after `k` scheduling steps from `a`; `None` once a
/// step stops.
pub open spec fn run_steps(a: Atari, k: nat) -> Option<(Atari, int)>
    decreases k,
{
    if k == 0 {
        Some((a, 0))
    } else {
        match run_steps(a, (k - 1) as nat) {
            Some((b, t)) => match b.spec_run_one_cycle() {
                Some((b2, d)) => Some((b2, t + d)),
                None => None,
            },
            None => None,
        }
    }
}

/// Step `j` of the run from `a` reached a state with VSYNC on.
pub open spec fn vsync_at(a: Atari, j: nat) -> bool {
    run_steps(a, j) matches Some((b, t)) && vsync_on(b.bus.tia.core)
}

/// A frame run from `start`: `k1` steps while VSYNC is on, then `k2 >= 1`
/// steps while it is off, ending at `fin` after `total` cycles once VSYNC
/// comes back on or more than 100 000 cycles have run.
pub open spec fn frame_run(start: Atari, k1: nat, k2: nat, fin: Atari, total: u64) -> bool {
    let a0 = start.frame_start();
    &&& forall|j: nat| j < k1 ==> #[trigger] vsync_at(a0, j)
    &&& k2 >= 1
    &&& forall|j: nat|
        k1 <= j < k1 + k2 ==> (#[trigger] run_steps(a0, j) matches Some((b, t)) && !vsync_on(
            b.bus.tia.core,
        ) && (j > k1 ==> t <= 100_000))
    &&& run_steps(a0, k1 + k2) == Some((fin, total as int))
    &&& vsync_on(fin.bus.tia.core) || total > 100_000
}

/// One more scheduling step of a run.
proof fn lemma_run_steps_next(a: Atari, k: nat)
    ensures
        run_steps(a, k + 1) == match run_steps(a, k) {
            Some((b, t)) => match b.spec_run_one_cycle() {
                Some((b2, d)) => Some((b2, t + d)),
                None => None,
            },
            None => None,
        },
{
}

/// Some frame run leads from `start` to `fin` in `total` cycles.
pub open spec fn frame_ran(start: Atari, fin: Atari, total: u64) -> bool {
    exists|k1: nat, k2: nat| #[trigger] frame_run(start, k1, k2, fin, total)
}

/// The run from `a` stops at step `k`, or has used up the cycle counter there.
pub open spec fn run_halts(a: Atari, k: nat) -> bool {
    match run_steps(a, k) {
        Some((b, t)) => t > u64::MAX - 256,
        None => true,
    }
}

/// A frame run from `start` that stops before the frame ends: `k1` steps
/// while VSYNC is on, then steps with VSYNC off (and, after the first, at
/// most 100 000 cycles), until step `k` stops on an instruction the CPU does
/// not implement or uses up the cycle counter.
pub open spec fn frame_halts(start: Atari, k1: nat, k: nat) -> bool {
    let a0 = start.frame_start();
    &&& k1 <= k
    &&& forall|j: nat| j < k1 ==> #[trigger] vsync_at(a0, j)
    &&& forall|j: nat|
        k1 <= j < k ==> (#[trigger] run_steps(a0, j) matches Some((b, t)) && !vsync_on(
            b.bus.tia.core,
        ) && (j > k1 ==> t <= 100_000))
    &&& run_halts(a0, k)
}

impl Atari {
    pub fn new(rom: Vec<u8>) -> (r: Self)
        requires
            rom@.len() > 0,
        ensures
            r == Atari::spec_new(rom),
            r.wf(),
    {
        let mut console = Atari { cpu: Cpu::new(), bus: Bus::new(rom), pending_cycles: 0 };
        console.cpu.reset(&mut console.bus);
        console
    }

    /// Apply a joystick action to the PIA ports.
    pub fn set_action(&mut self, action: Action)
        ensures
            *final(self) == old(self).spec_set_action(action),
    {
        let (up, down, left, right, fire) = action.decode();
        // SWCHA: P0 = upper nibble (active low)
        let swcha = port_a_bits(up, down, left, right);
        // Map left/right to paddle position for paddle-based games
        let paddle = if left {
            200u8
        } else if right {
            50u8
        } else {
            128u8
        };
        self.bus.set_inputs(swcha, !fire, paddle);
    }

    /// Tick TIA and PIA for one CPU cycle (3 TIA clocks, 1 PIA clock).
    fn tick_components(&mut self)
        requires
            old(self).wf(),
        ensures
            *final(self) == old(self).with_bus(old(self).bus.spec_tick_cycle()),
            final(self).wf(),
    {
        self.bus.tia.tick();
        self.bus.tia.tick();
        self.bus.tia.tick();
        self.bus.pia.tick();
    }

    /// Tick TIA and PIA for `n` CPU cycles.
    fn tick_cycles(&mut self, n: u64)
        requires
            old(self).wf(),
        ensures
            *final(self) == old(self).with_bus(old(self).bus.spec_tick_cycles(n as nat)),
            final(self).wf(),
    {
        let mut i: u64 = 0;
        while i < n
            invariant
                i <= n,
                self.wf(),
                *self == old(self).with_bus(old(self).bus.spec_tick_cycles(i as nat)),
            decreases n - i,
        {
            self.tick_components();
            i = i + 1;
        }
    }

    /// Execute one CPU step with interleaved TIA/PIA ticking.
    ///
    /// On real hardware the TIA beam advances continuously during CPU
    /// execution, and register writes take effect on the last cycle.
    /// We approximate this by ticking TIA for (N-1) cycles before the
    /// write, then 1 cycle after — so the write lands near the end of
    /// the instruction. Returns the cycles consumed.
    fn run_one_cycle(&mut self) -> (r: Option<u64>)
        requires
            old(self).wf(),
        ensures
            match old(self).spec_run_one_cycle() {
                Some((a, d)) => r == Some(d) && *final(self) == a && 1 <= d <= 255,
                None => r is None,
            },
            final(self).wf(),
    {
        proof {
            reveal(Atari::spec_run_one_cycle);
        }
        if self.bus.tia.core.wsync {
            self.tick_components();
            Some(1)
        } else {
            self.run_instruction()
        }
    }

    /// One instruction with the beam run ahead by its table count less one.
    #[verifier::rlimit(100)]
    #[verifier::spinoff_prover]
    fn run_instruction(&mut self) -> (r: Option<u64>)
        requires
            old(self).wf(),
        ensures
            match old(self).spec_instruction() {
                Some((a, d)) => r == Some(d) && *final(self) == a && 1 <= d <= 255,
                None => r is None,
            },
            final(self).wf(),
    {
        // Peek at the opcode to get its cycle count before executing
        let pc = self.cpu.pc;
        let op = self.bus.read(pc);
        let c: u64 = if CYCLE_TABLE[op as usize] == 0 {
            2
        } else {
            CYCLE_TABLE[op as usize] as u64
        };
        assert(c == lead_cycles(op));
        // Tick TIA for (c-1) cycles — beam advances to just before the write
        self.tick_cycles(c - 1);
        let ghost b2 = self.bus;
        assert(b2 == old(self).bus.spec_after_read(pc).spec_tick_cycles((c - 1) as nat));
        if self.cpu.cycles > u64::MAX - 7 {
            return None;
        }
        // Execute the instruction — register writes happen here
        let actual = match self.cpu.try_step(&mut self.bus) {
            Some(n) => n as u64,
            None => return None,
        };
        proof {
            lemma_step_matches_tables::<Bus>(old(self).cpu, b2);
        }
        // Tick the remaining cycle(s) after the write
        let rest: u64 = if actual >= c - 1 {
            actual - (c - 1)
        } else {
            0
        };
        self.tick_cycles(rest);
        Some(actual)
    }

    /// Run the console until the next frame is complete.
    /// Returns the number of CPU cycles executed; `None` where an instruction
    /// the CPU does not implement stops the console, or a cycle counter would
    /// overflow.
    #[verifier::spinoff_prover]
    #[verifier::rlimit(50)]
    pub fn run_frame(&mut self) -> (r: Option<u64>)
        requires
            old(self).wf(),
        ensures
            final(self).wf(),
            r is Some ==> frame_ran(*old(self), *final(self), r->0) && r->0 >= 1,
            r is None ==> exists|k1: nat, k: nat| #[trigger] frame_halts(*old(self), k1, k),
    {
        // Wait for VSYNC to signal frame complete, but ignore if it's
        // already set from the previous frame.
        let core = HeadlessTia { frame_complete: false, ..self.bus.tia.core };
        self.bus.tia.core = core;
        let ghost a0 = *self;
        assert(a0 == old(self).frame_start());
        let mut cycles: u64 = 0;
        let ghost mut i: nat = 0;
        // Phase 1: If we're currently in VSYNC, run until VSYNC ends
        while self.bus.tia.core.vsync & 0x02 != 0
            invariant
                self.wf(),
                a0 == old(self).frame_start(),
                run_steps(a0, i) == Some((*self, cycles as int)),
                forall|j: nat| j < i ==> #[trigger] vsync_at(a0, j),
            decreases u64::MAX - cycles,
        {
            if cycles > u64::MAX - 256 {
                assert(run_halts(a0, i));
                assert(frame_halts(*old(self), i, i));
                return None;
            }
            assert(vsync_at(a0, i));
            proof {
                lemma_run_steps_next(a0, i);
            }
            match self.run_one_cycle() {
                Some(d) => {
                    cycles = cycles + d;
                },
                None => {
                    assert(run_halts(a0, i + 1));
                    assert(frame_halts(*old(self), i + 1, i + 1));
                    return None;
                },
            }
            proof {
                i = i + 1;
            }
        }
        // Phase 2: Run until the next VSYNC starts (= end of this frame)
        let ghost k1 = i;
        loop
            invariant_except_break
                !vsync_on(self.bus.tia.core),
                i > k1 ==> cycles <= 100_000,
            invariant
                self.wf(),
                a0 == old(self).frame_start(),
                k1 <= i,
                i > k1 ==> cycles >= 1,
                run_steps(a0, i) == Some((*self, cycles as int)),
                forall|j: nat| j < k1 ==> #[trigger] vsync_at(a0, j),
                forall|j: nat|
                    k1 <= j < i ==> (#[trigger] run_steps(a0, j) matches Some((b, t)) && !vsync_on(
                        b.bus.tia.core,
                    ) && (j > k1 ==> t <= 100_000)),
            ensures
                self.wf(),
                k1 < i,
                run_steps(a0, i) == Some((*self, cycles as int)),
                forall|j: nat| j < k1 ==> #[trigger] vsync_at(a0, j),
                forall|j: nat|
                    k1 <= j < i ==> (#[trigger] run_steps(a0, j) matches Some((b, t)) && !vsync_on(
                        b.bus.tia.core,
                    ) && (j > k1 ==> t <= 100_000)),
                vsync_on(self.bus.tia.core) || cycles > 100_000,
                cycles >= 1,
            decreases 100_001 - cycles,
        {
            if cycles > u64::MAX - 256 {
                assert(run_halts(a0, i));
                assert(frame_halts(*old(self), k1, i));
                return None;
            }
            let ghost before = *self;
            let ghost cycles_before = cycles;
            proof {
                lemma_run_steps_next(a0, i);
            }
            match self.run_one_cycle() {
                Some(d) => {
                    cycles = cycles + d;
                },
                None => {
                    assert(run_halts(a0, i + 1));
                    assert(run_steps(a0, i) == Some((before, cycles_before as int)));
                    assert(frame_halts(*old(self), k1, i + 1));
                    return None;
                },
            }
            proof {
                assert(run_steps(a0, i) == Some((before, cycles_before as int)));
                i = i + 1;
            }
            // Safety: break if we've run way too many cycles (broken ROM)
            if cycles > 100_000 {
                break;
            }
            if self.bus.tia.core.vsync & 0x02 != 0 {
                break;
            }
        }
        // Flush any remaining pending ticks so the framebuffer is complete
        let mut n: u64 = 0;
        while n < self.pending_cycles
            invariant
                self.wf(),
                run_steps(a0, i) == Some((*self, cycles as int)),
            decreases self.pending_cycles - n,
        {
            self.tick_components();
            n = n + 1;
        }
        let ghost k2: nat = (i - k1) as nat;
        assert(frame_run(*old(self), k1, k2, *self, cycles));
        assert(frame_ran(*old(self), *self, cycles));
        Some(cycles)
    }
}


// ---------------------------------------------------------------------------
// Headless Atari — no framebuffer, no pixel rendering, maximum throughput.
// ---------------------------------------------------------------------------

/// Whether a ROM of `len` bytes fills every bank of its scheme, as the
/// headless bus, which copies whole banks, needs.
pub open spec fn headless_rom_ok(len: int) -> bool {
    len > 0 && (scheme_for(len) != BankScheme::Fixed ==> len >= bank_count(scheme_for(len)) * 4096)
}

/// The flat 8K address space with the cartridge window $1000–$1FFF showing
/// `bank` and everything else as in `mem`.
pub open spec fn with_window(mem: Seq<u8>, rom: Seq<u8>, scheme: BankScheme, bank: usize) -> Seq<
    u8,
> {
    Seq::new(
        8192,
        |i: int|
            if 0x1000 <= i < 0x2000 {
                bank_byte(rom, scheme, bank, i - 0x1000)
            } else {
                mem[i]
            },
    )
}

/// What the CPU sees of a headless bus: the devices, the flat memory image,
/// and the cartridge.
pub struct HeadlessState {
    pub tia: HeadlessTia,
    pub pia: Pia,
    pub mem: Seq<u8>,
    pub rom: Seq<u8>,
    pub bank: usize,
    pub scheme: BankScheme,
}

impl HeadlessState {
    /// Devices in a valid state, a ROM that fills its banks, and a flat
    /// memory image that mirrors PIA RAM at $80 and $180 and shows the
    /// selected bank at $1000.
    pub open spec fn wf(self) -> bool {
        &&& self.tia.wf()
        &&& self.pia.tick_ready()
        &&& self.rom.len() > 0
        &&& (self.scheme != BankScheme::Fixed ==> self.rom.len() >= bank_count(self.scheme) * 4096)
        &&& self.bank < bank_count(self.scheme)
        &&& self.mem.len() == 8192
        &&& forall|i: int|
            0 <= i < 128 ==> #[trigger] self.mem[0x80 + i] == self.pia.ram[i] && self.mem[0x180
                + i] == self.pia.ram[i]
        &&& forall|i: int|
            0 <= i < 4096 ==> #[trigger] self.mem[0x1000 + i] == bank_byte(
                self.rom,
                self.scheme,
                self.bank,
                i,
            )
    }

    /// The state after the hotspot check for an access to `addr`: a new bank
    /// is copied into the cartridge window.
    pub open spec fn spec_switch(self, addr: u16) -> HeadlessState {
        match hotspot_bank(self.scheme, addr) {
            Some(nb) => if nb != self.bank {
                HeadlessState {
                    bank: nb,
                    mem: with_window(self.mem, self.rom, self.scheme, nb),
                    ..self
                }
            } else {
                self
            },
            None => self,
        }
    }

    /// The state with the TIA's frame-complete latch cleared.
    pub open spec fn frame_start(self) -> HeadlessState {
        HeadlessState { tia: HeadlessTia { frame_complete: false, ..self.tia }, ..self }
    }

    /// Whether a 13-bit address takes the fast path: cartridge ROM or PIA
    /// RAM, served from the flat image.
    pub open spec fn is_flat(a: u16) -> bool {
        a & 0x1080 != 0 && a & 0x1280 != 0x0280
    }

    /// The value a CPU read of `addr` returns.
    pub open spec fn spec_read(self, addr: u16) -> u8 {
        let a = addr & 0x1FFF;
        if HeadlessState::is_flat(a) {
            self.spec_switch(addr).mem[a as int]
        } else if a & 0x1280 == 0x0280 {
            self.pia.spec_read(a)
        } else if a & 0x1080 == 0 {
            self.tia.spec_read(a)
        } else {
            0
        }
    }

    /// The state after a CPU read of `addr`.
    pub open spec fn spec_after_read(self, addr: u16) -> HeadlessState {
        let a = addr & 0x1FFF;
        if HeadlessState::is_flat(a) {
            self.spec_switch(addr)
        } else if a & 0x1280 == 0x0280 {
            HeadlessState { pia: self.pia.spec_after_read(a), ..self }
        } else {
            self
        }
    }

    /// The state after a CPU write of `val` to `addr`.
    pub open spec fn spec_write(self, addr: u16, val: u8) -> HeadlessState {
        let a = addr & 0x1FFF;
        if a & 0x1000 != 0 {
            self.spec_switch(addr)
        } else if a & 0x80 != 0 && a & 0x200 == 0 {
            let lo = ((a | 0x80) & 0x1FF) as int;
            HeadlessState {
                pia: Pia { ram: spec_array_update(self.pia.ram, (a & 0x7F) as int, val), ..self.pia },
                mem: self.mem.update(lo, val).update(
                    ((a | 0x80) & 0x1FF ^ 0x100) as int,
                    val,
                ),
                ..self
            }
        } else if a & 0x200 != 0 {
            HeadlessState { pia: self.pia.spec_write(a, val), ..self }
        } else {
            HeadlessState { tia: self.tia.spec_write(a, val), ..self }
        }
    }
}

/// Flat memory bus for headless mode.
///
/// The 2600 has a 13-bit address space (8KB), flattened into one array:
///   - `$0080–$00FF` → PIA RAM (128 bytes), mirrored at `$0180–$01FF` (stack)
///   - `$1000–$1FFF` → ROM (current 4K bank, copied in at load / bank switch)
///   - Everything else in the array is unused padding
///
/// Reads of ROM and RAM hit the flat array; TIA registers and PIA I/O take
/// the slow path. Writes always go through dispatch (ROM is never written).
pub struct HeadlessBus {
    pub tia: HeadlessTia,
    pub pia: Pia,
    /// Flat 8KB address space. ROM and PIA RAM live at their real addresses.
    pub mem: Box<[u8; 8192]>,
    /// Full ROM image (for bankswitched games, all banks concatenated).
    pub rom: Vec<u8>,
    pub bank: usize,
    pub scheme: BankScheme,
}

impl HeadlessBus {
    pub open spec fn view(&self) -> HeadlessState {
        HeadlessState {
            tia: self.tia,
            pia: self.pia,
            mem: self.mem@,
            rom: self.rom@,
            bank: self.bank,
            scheme: self.scheme,
        }
    }

    /// Power-on state for a ROM: devices reset, RAM clear, the start bank in
    /// the cartridge window, the rest of the image zero.
    pub open spec fn spec_new(rom: Seq<u8>) -> HeadlessState {
        let scheme = scheme_for(rom.len() as int);
        HeadlessState {
            tia: HeadlessTia::spec_new(),
            pia: Pia::spec_new(),
            mem: with_window(Seq::new(8192, |i: int| 0u8), rom, scheme, start_bank(scheme)),
            rom,
            bank: start_bank(scheme),
            scheme,
        }
    }

    fn new(rom: Vec<u8>) -> (r: Self)
        requires
            headless_rom_ok(rom@.len() as int),
        ensures
            r.view() == HeadlessBus::spec_new(rom@),
            r.view().wf(),
    {
        let scheme = BankScheme::detect(rom.len());
        let bank = initial_bank(scheme);
        let mut bus = HeadlessBus {
            tia: HeadlessTia::new(),
            pia: Pia::new(),
            mem: Box::new([0u8; 8192]),
            rom,
            bank,
            scheme,
        };
        proof {
            broadcast use vstd::array::group_array_axioms;

            assert(bus.mem@ =~= Seq::new(8192, |i: int| 0u8));
        }
        bus.load_bank(bank);
        bus.sync_ram_to_mem();
        proof {
            broadcast use vstd::array::group_array_axioms;

            assert(bus.view().mem =~= HeadlessBus::spec_new(bus.rom@).mem);
        }
        bus
    }

    /// Copy a ROM bank into the flat address space at $1000–$1FFF.
    fn load_bank(&mut self, bank: usize)
        requires
            old(self).rom@.len() > 0,
            old(self).scheme != BankScheme::Fixed ==> old(self).rom@.len() >= bank_count(
                old(self).scheme,
            ) * 4096,
            bank < bank_count(old(self).scheme),
        ensures
            final(self).view() == (HeadlessState {
                mem: with_window(old(self).mem@, old(self).rom@, old(self).scheme, bank),
                ..old(self).view()
            }),
    {
        let rom_len = self.rom.len();
        let mut i: usize = 0;
        while i < 4096
            invariant
                i <= 4096,
                rom_len == self.rom@.len(),
                self.rom@ == old(self).rom@,
                self.scheme == old(self).scheme,
                self.tia == old(self).tia,
                self.pia == old(self).pia,
                self.bank == old(self).bank,
                rom_len > 0,
                self.scheme != BankScheme::Fixed ==> rom_len >= bank_count(self.scheme) * 4096,
                bank < bank_count(self.scheme),
                forall|k: int|
                    0 <= k < 8192 ==> #[trigger] self.mem@[k] == if 0x1000 <= k < 0x1000 + i {
                        bank_byte(self.rom@, self.scheme, bank, k - 0x1000)
                    } else {
                        old(self).mem@[k]
                    },
            decreases 4096 - i,
        {
            let v = match self.scheme {
                // 2K/4K ROM: mirror into the 4K window
                BankScheme::Fixed => self.rom[i % rom_len],
                _ => self.rom[bank * 4096 + i],
            };
            self.mem[0x1000 + i] = v;
            proof {
                broadcast use vstd::array::group_array_axioms;

            }
            i = i + 1;
        }
        proof {
            assert(self.mem@ =~= with_window(old(self).mem@, old(self).rom@, old(self).scheme, bank));
        }
    }

    /// Sync PIA RAM into the flat array: $0080–$00FF and its mirror
    /// $0180–$01FF (stack page).
    fn sync_ram_to_mem(&mut self)
        ensures
            final(self).view() == (HeadlessState {
                mem: Seq::new(
                    8192,
                    |k: int|
                        if 0x80 <= k < 0x100 {
                            old(self).pia.ram[k - 0x80]
                        } else if 0x180 <= k < 0x200 {
                            old(self).pia.ram[k - 0x180]
                        } else {
                            old(self).mem@[k]
                        },
                ),
                ..old(self).view()
            }),
    {
        let mut i: usize = 0;
        while i < 128
            invariant
                i <= 128,
                self.rom@ == old(self).rom@,
                self.scheme == old(self).scheme,
                self.tia == old(self).tia,
                self.pia == old(self).pia,
                self.bank == old(self).bank,
                forall|k: int|
                    0 <= k < 8192 ==> #[trigger] self.mem@[k] == if 0x80 <= k < 0x80 + i {
                        old(self).pia.ram[k - 0x80]
                    } else if 0x180 <= k < 0x180 + i {
                        old(self).pia.ram[k - 0x180]
                    } else {
                        old(self).mem@[k]
                    },
            decreases 128 - i,
        {
            let v = self.pia.ram[i];
            self.mem[0x80 + i] = v;
            self.mem[0x180 + i] = v;
            proof {
                broadcast use vstd::array::group_array_axioms;

            }
            i = i + 1;
        }
        proof {
            assert(self.mem@ =~= Seq::new(
                8192,
                |k: int|
                    if 0x80 <= k < 0x100 {
                        old(self).pia.ram[k - 0x80]
                    } else if 0x180 <= k < 0x200 {
                        old(self).pia.ram[k - 0x180]
                    } else {
                        old(self).mem@[k]
                    },
            ));
        }
    }
}


/// A PIA write or read keeps the PIA valid and, outside RAM, leaves RAM alone.
proof fn lemma_pia_access_wf(p: Pia, addr: u16, val: u8)
    requires
        p.wf(),
    ensures
        p.spec_write(addr, val).wf(),
        p.spec_after_read(addr).wf(),
        p.spec_after_read(addr).ram == p.ram,
        addr & 0x200 != 0 ==> p.spec_write(addr, val).ram == p.ram,
{
}

impl HeadlessBus {
    fn check_bankswitch(&mut self, addr: u16)
        requires
            old(self).view().wf(),
        ensures
            final(self).view() == old(self).view().spec_switch(addr),
            final(self).view().wf(),
    {
        let new_bank = switched_bank(self.scheme, self.bank, addr);
        if new_bank != self.bank {
            self.bank = new_bank;
            self.load_bank(new_bank);
            proof {
                let v = self.view();
                assert forall|i: int| 0 <= i < 128 implies #[trigger] v.mem[0x80 + i] == v.pia.ram[i]
                    && v.mem[0x180 + i] == v.pia.ram[i] by {
                    assert(old(self).view().mem[0x80 + i] == old(self).pia.ram[i]);
                    assert(old(self).view().mem[0x180 + i] == old(self).pia.ram[i]);
                }
                assert forall|i: int| 0 <= i < 4096 implies #[trigger] v.mem[0x1000 + i]
                    == bank_byte(v.rom, v.scheme, v.bank, i) by {}
            }
        }
    }
}

/// Where a write to PIA RAM at `a` lands in the flat image: its zero-page
/// slot and its stack-page mirror.
proof fn lemma_ram_slots(addr: u16)
    ensures
        ({
            let a = addr & 0x1FFF;
            let lo = (a | 0x80) & 0x1FF;
            a & 0x80 != 0 && a & 0x200 == 0 ==> {
                &&& lo == 0x80 + (a & 0x7F) || lo == 0x180 + (a & 0x7F)
                &&& lo == 0x80 + (a & 0x7F) ==> lo ^ 0x100 == 0x180 + (a & 0x7F)
                &&& lo == 0x180 + (a & 0x7F) ==> lo ^ 0x100 == 0x80 + (a & 0x7F)
                &&& a & 0x7F < 128
            }
        }),
{
    assert(((addr & 0x1FFF) & 0x80 != 0 && (addr & 0x1FFF) & 0x200 == 0) ==> {
        let lo = ((addr & 0x1FFF) | 0x80) & 0x1FF;
        &&& lo == 0x80 + ((addr & 0x1FFF) & 0x7F) || lo == 0x180 + ((addr & 0x1FFF) & 0x7F)
        &&& lo == 0x80 + ((addr & 0x1FFF) & 0x7F) ==> lo ^ 0x100 == 0x180 + ((addr & 0x1FFF) & 0x7F)
        &&& lo == 0x180 + ((addr & 0x1FFF) & 0x7F) ==> lo ^ 0x100 == 0x80 + ((addr & 0x1FFF) & 0x7F)
        &&& (addr & 0x1FFF) & 0x7F < 128
    }) by (bit_vector);
}

/// Facts about 13-bit address decoding used by the headless bus.
proof fn lemma_headless_decode(addr: u16)
    ensures
        ({
            let a = addr & 0x1FFF;
            &&& a < 0x2000
            &&& a & 0x1000 == 0 ==> a < 0x1000
            &&& a & 0x1000 != 0 ==> 0x1000 <= a
        }),
{
    assert((addr & 0x1FFF) < 0x2000 && ((addr & 0x1FFF) & 0x1000 == 0 ==> (addr & 0x1FFF) < 0x1000)
        && ((addr & 0x1FFF) & 0x1000 != 0 ==> 0x1000 <= (addr & 0x1FFF))) by (bit_vector);
}

impl HeadlessBus {
    /// Advance the TIA and PIA by `n` CPU cycles.
    fn advance(&mut self, n: u8)
        requires
            old(self).view().wf(),
            n <= 76,
        ensures
            final(self).view() == (HeadlessState {
                tia: old(self).tia.spec_tick_n(n as int),
                pia: old(self).pia.spec_ticks((n as u16) as nat),
                ..old(self).view()
            }),
            final(self).view().wf(),
    {
        proof {
            lemma_ticks_timer_only(self.pia, n as nat);
        }
        self.tia.tick_n(n);
        self.pia.tick_n(n as u16);
    }
}

impl Memory for HeadlessBus {
    type Model = HeadlessState;

    open spec fn model(&self) -> HeadlessState {
        self.view()
    }

    open spec fn ready(m: HeadlessState) -> bool {
        m.wf()
    }

    open spec fn read_value(m: HeadlessState, addr: u16) -> u8 {
        m.spec_read(addr)
    }

    open spec fn after_read(m: HeadlessState, addr: u16) -> HeadlessState {
        m.spec_after_read(addr)
    }

    open spec fn after_write(m: HeadlessState, addr: u16, val: u8) -> HeadlessState {
        m.spec_write(addr, val)
    }

    fn read(&mut self, addr: u16) -> (r: u8) {
        let a = addr & 0x1FFF;
        proof {
            lemma_headless_decode(addr);
        }
        // Fast path: ROM ($1000–$1FFF) or RAM ($80–$FF / $180–$1FF);
        // excludes PIA I/O ($0280–$029F), which also has bit 7 set
        if a & 0x1080 != 0 && (a & 0x1280) != 0x0280 {
            if a & 0x1000 != 0 && self.scheme != BankScheme::Fixed {
                self.check_bankswitch(addr);
            }
            return self.mem[a as usize];
        }
        // PIA I/O: $280–$29F (A12=0, A9=1)
        if a & 0x1280 == 0x0280 {
            proof {
                lemma_pia_access_wf(self.pia, a, 0);
            }
            return self.pia.read(a);
        }
        // TIA read registers
        if a & 0x1080 == 0 {
            return self.tia.read(a);
        }
        0
    }

    fn write(&mut self, addr: u16, val: u8) {
        let a = addr & 0x1FFF;
        proof {
            lemma_headless_decode(addr);
        }
        // ROM space — only bankswitch hotspots matter
        if a & 0x1000 != 0 {
            if self.scheme != BankScheme::Fixed {
                self.check_bankswitch(addr);
            }
            return;
        }
        // PIA RAM: $80–$FF or $180–$1FF
        if a & 0x80 != 0 && a & 0x200 == 0 {
            proof {
                lemma_ram_slots(addr);
            }
            let ghost old_view = self.view();
            // Write to both PIA and flat array (keep in sync)
            self.pia.ram[(a & 0x7F) as usize] = val;
            let lo: u16 = (a | 0x80) & 0x1FF;
            self.mem[lo as usize] = val;
            // Mirror
            self.mem[(lo ^ 0x100) as usize] = val;
            proof {
                broadcast use vstd::array::group_array_axioms;

                let v = self.view();
                assert(v.pia.ram =~= spec_array_update(old_view.pia.ram, (a & 0x7F) as int, val));
                assert(v.mem =~= old_view.mem.update(lo as int, val).update((lo ^ 0x100) as int, val));
                assert(v == old_view.spec_write(addr, val));
                assert forall|i: int| 0 <= i < 128 implies #[trigger] v.mem[0x80 + i] == v.pia.ram[i]
                    && v.mem[0x180 + i] == v.pia.ram[i] by {
                    assert(old_view.mem[0x80 + i] == old_view.pia.ram[i]);
                    assert(old_view.mem[0x180 + i] == old_view.pia.ram[i]);
                }
                assert forall|i: int| 0 <= i < 4096 implies #[trigger] v.mem[0x1000 + i]
                    == bank_byte(v.rom, v.scheme, v.bank, i) by {
                    assert(old_view.mem[0x1000 + i] == bank_byte(v.rom, v.scheme, v.bank, i));
                }
            }
            return;
        }
        // PIA I/O: $280–$29F
        if a & 0x200 != 0 {
            proof {
                lemma_pia_access_wf(self.pia, a, val);
            }
            self.pia.write(a, val);
            return;
        }
        // TIA write registers
        self.tia.write(a, val);
    }
}

/// On the headless bus a read of PIA RAM returns the last value written to
/// it through either of its mirrors ($80–$FF and $180–$1FF), a RAM write
/// leaves the other RAM cells alone, and a RAM read has no side effect.
pub proof fn lemma_headless_ram_read_after_write(m: HeadlessState, addr: u16, other: u16, val: u8)
    requires
        m.wf(),
        addr & 0x1FFF < 0x200,
        (addr & 0x1FFF) & 0x80 != 0,
        other & 0x1FFF < 0x200,
        (other & 0x1FFF) & 0x80 != 0,
    ensures
        (other & 0x7F) == (addr & 0x7F) ==> m.spec_write(addr, val).spec_read(other) == val,
        (other & 0x7F) != (addr & 0x7F) ==> m.spec_write(addr, val).spec_read(other)
            == m.spec_read(other),
        m.spec_after_read(other) == m,
{
    lemma_ram_slots(addr);
    lemma_ram_slots(other);
    lemma_headless_decode(addr);
    lemma_headless_decode(other);
    let a = addr & 0x1FFF;
    let o = other & 0x1FFF;
    assert(a < 0x200 && a & 0x80 != 0 ==> a & 0x200 == 0 && a & 0x1000 == 0) by (bit_vector);
    assert(o < 0x200 && o & 0x80 != 0 ==> o & 0x200 == 0 && o & 0x1000 == 0 && o & 0x1080 != 0
        && o & 0x1280 != 0x0280 && (o == 0x80 + (o & 0x7F) || o == 0x180 + (o & 0x7F))) by (bit_vector);
    assert(o & 0x7F == other & 0x7F && a & 0x7F == addr & 0x7F) by (bit_vector)
        requires
            o == other & 0x1FFF,
            a == addr & 0x1FFF,
    ;
    assert(hotspot_bank(m.scheme, other) is None);
    broadcast use vstd::array::group_array_axioms;

    let w = m.spec_write(addr, val);
    assert(hotspot_bank(w.scheme, other) is None);
    if o == 0x80 + (o & 0x7F) {
        assert(m.mem[0x80 + (o & 0x7F) as int] == m.pia.ram[(o & 0x7F) as int]);
    } else {
        assert(m.mem[0x80 + (o & 0x7F) as int] == m.pia.ram[(o & 0x7F) as int]);
        assert(m.mem[0x180 + (o & 0x7F) as int] == m.pia.ram[(o & 0x7F) as int]);
    }
}


/// One scheduling step of the headless console from CPU `cpu` and bus state
/// `m`: a WSYNC halt skips to the end of the scanline (the PIA timer
/// advancing by the cycles skipped); otherwise one instruction runs and the
/// TIA and PIA advance by its cycles. `None` where the instruction is not one
/// the CPU implements or the CPU cycle counter is exhausted.
#[verifier::opaque]
pub open spec fn headless_cycle(cpu: Cpu, m: HeadlessState) -> Option<(Cpu, HeadlessState, u64)> {
    if m.tia.wsync {
        let skipped = m.tia.spec_cycles_left();
        Some(
            (
                cpu,
                HeadlessState {
                    tia: HeadlessTia { clock: 228, ..m.tia }.spec_end_scanline(),
                    pia: m.pia.spec_ticks((skipped) as nat),
                    ..m
                },
                skipped as u64,
            ),
        )
    } else if cpu.cycles > u64::MAX - 7 || !is_legal_opcode(m.spec_read(cpu.pc)) {
        None
    } else {
        let (c2, m2, n) = step_spec::<HeadlessBus>(cpu, m);
        Some(
            (
                c2,
                HeadlessState {
                    tia: m2.tia.spec_tick_n(n as int),
                    pia: m2.pia.spec_ticks((n as u16) as nat),
                    ..m2
                },
                n as u64,
            ),
        )
    }
}

/// CPU, bus state and cycle total after `k` headless scheduling steps;
/// `None` once a step stops.
pub open spec fn headless_steps(cpu: Cpu, m: HeadlessState, k: nat) -> Option<(Cpu, HeadlessState, int)>
    decreases k,
{
    if k == 0 {
        Some((cpu, m, 0))
    } else {
        match headless_steps(cpu, m, (k - 1) as nat) {
            Some((c, b, t)) => match headless_cycle(c, b) {
                Some((c2, b2, d)) => Some((c2, b2, t + d)),
                None => None,
            },
            None => None,
        }
    }
}

proof fn lemma_headless_steps_next(cpu: Cpu, m: HeadlessState, k: nat)
    ensures
        headless_steps(cpu, m, k + 1) == match headless_steps(cpu, m, k) {
            Some((c, b, t)) => match headless_cycle(c, b) {
                Some((c2, b2, d)) => Some((c2, b2, t + d)),
                None => None,
            },
            None => None,
        },
{
}

/// Step `j` of a headless run reached a state with VSYNC on.
pub open spec fn headless_vsync_at(cpu: Cpu, m: HeadlessState, j: nat) -> bool {
    headless_steps(cpu, m, j) matches Some((c, b, t)) && vsync_on(b.tia)
}

/// A headless frame run from (`cpu`, `m`): `k1` steps while VSYNC is on,
/// then `k2 >= 1` steps while it is off, ending at (`cf`, `mf`) after
/// `total` cycles once VSYNC comes back on or more than 100 000 cycles have run.
pub open spec fn headless_frame_run(
    cpu: Cpu,
    m: HeadlessState,
    k1: nat,
    k2: nat,
    cf: Cpu,
    mf: HeadlessState,
    total: u64,
) -> bool {
    &&& forall|j: nat| j < k1 ==> #[trigger] headless_vsync_at(cpu, m, j)
    &&& k2 >= 1
    &&& forall|j: nat|
        k1 <= j < k1 + k2 ==> (#[trigger] headless_steps(cpu, m, j) matches Some((c, b, t))
            && !vsync_on(b.tia) && (j > k1 ==> t <= 100_000))
    &&& headless_steps(cpu, m, k1 + k2) == Some((cf, mf, total as int))
    &&& vsync_on(mf.tia) || total > 100_000
}

/// Some headless frame run leads from (`cpu`, `m`) to (`cf`, `mf`) in `total` cycles.
pub open spec fn headless_frame_ran(cpu: Cpu, m: HeadlessState, cf: Cpu, mf: HeadlessState, total: u64) -> bool {
    exists|k1: nat, k2: nat| #[trigger] headless_frame_run(cpu, m, k1, k2, cf, mf, total)
}

/// The headless run stops at step `k`, or has used up the cycle counter there.
pub open spec fn headless_halts(cpu: Cpu, m: HeadlessState, k: nat) -> bool {
    match headless_steps(cpu, m, k) {
        Some((c, b, t)) => t > u64::MAX - 256,
        None => true,
    }
}

/// A headless frame run from (`cpu`, `m`) that stops before the frame ends:
/// `k1` steps while VSYNC is on, then steps with VSYNC off (and, after the
/// first, at most 100 000 cycles), until step `k` stops on an instruction the
/// CPU does not implement or uses up the cycle counter.
pub open spec fn headless_frame_halts(cpu: Cpu, m: HeadlessState, k1: nat, k: nat) -> bool {
    &&& k1 <= k
    &&& forall|j: nat| j < k1 ==> #[trigger] headless_vsync_at(cpu, m, j)
    &&& forall|j: nat|
        k1 <= j < k ==> (#[trigger] headless_steps(cpu, m, j) matches Some((c, b, t))
            && !vsync_on(b.tia) && (j > k1 ==> t <= 100_000))
    &&& headless_halts(cpu, m, k)
}

/// The headless bus state with the joystick inputs of `action` in place.
pub open spec fn headless_with_action(m: HeadlessState, action: Action) -> HeadlessState {
    let (up, down, left, right, fire) = action.spec_decode();
    HeadlessState {
        pia: Pia { port_a_input: joystick_port(up, down, left, right), ..m.pia },
        tia: HeadlessTia { inpt4: !fire, paddle0: joystick_paddle(left, right), ..m.tia },
        ..m
    }
}

/// Both consoles encode a joystick action the same way: from the same PIA
/// and TIA registers, applying an action gives the same PIA port, fire
/// button and paddle on the full bus as on the headless one, and touches
/// nothing else of either.
pub proof fn lemma_set_action_agrees(b: Bus, m: HeadlessState, action: Action)
    requires
        b.pia == m.pia,
        b.tia.core == m.tia,
    ensures
        b.spec_set_action(action).pia == headless_with_action(m, action).pia,
        b.spec_set_action(action).tia.core == headless_with_action(m, action).tia,
        b.spec_set_action(action) == (Bus {
            pia: b.spec_set_action(action).pia,
            tia: Tia { core: b.spec_set_action(action).tia.core, ..b.tia },
            ..b
        }),
        headless_with_action(m, action) == (HeadlessState {
            pia: headless_with_action(m, action).pia,
            tia: headless_with_action(m, action).tia,
            ..m
        }),
{
}

/// Headless Atari 2600 — skips all pixel rendering for maximum throughput.
pub struct HeadlessAtari {
    pub cpu: Cpu,
    pub bus: HeadlessBus,
}

impl HeadlessAtari {
    pub open spec fn wf(self) -> bool {
        self.bus.view().wf()
    }

    /// Power-on console for a ROM: the CPU starts at the reset vector.
    pub open spec fn spec_new(rom: Seq<u8>) -> (Cpu, HeadlessState) {
        let b0 = HeadlessBus::spec_new(rom);
        let lo = b0.spec_read(0xFFFC);
        let b1 = b0.spec_after_read(0xFFFC);
        let hi = b1.spec_read(0xFFFD);
        (Cpu { pc: word(lo, hi), ..Cpu::spec_default() }, b1.spec_after_read(0xFFFD))
    }

    pub fn new(rom: Vec<u8>) -> (r: Self)
        requires
            headless_rom_ok(rom@.len() as int),
        ensures
            (r.cpu, r.bus.view()) == HeadlessAtari::spec_new(rom@),
            r.wf(),
    {
        let mut console = HeadlessAtari { cpu: Cpu::new(), bus: HeadlessBus::new(rom) };
        console.cpu.reset(&mut console.bus);
        console
    }

    /// Apply a joystick action to the PIA ports.
    pub fn set_action(&mut self, action: Action)
        ensures
            final(self).cpu == old(self).cpu,
            final(self).bus.view() == headless_with_action(old(self).bus.view(), action),
    {
        let (up, down, left, right, fire) = action.decode();
        let swcha = port_a_bits(up, down, left, right);
        self.bus.pia.set_port_a_input(swcha);
        let paddle = if left {
            200u8
        } else if right {
            50u8
        } else {
            128u8
        };
        let t = HeadlessTia { inpt4: !fire, paddle0: paddle, ..self.bus.tia };
        self.bus.tia = t;
    }

    /// One scheduling step; returns the cycles it took.
    fn run_one_cycle(&mut self) -> (r: Option<u64>)
        requires
            old(self).wf(),
        ensures
            match headless_cycle(old(self).cpu, old(self).bus.view()) {
                Some((c, m, d)) => r == Some(d) && final(self).cpu == c && final(self).bus.view() == m
                    && 1 <= d <= 255,
                None => r is None,
            },
            final(self).wf(),
    {
        proof {
            reveal(headless_cycle);
        }
        if self.bus.tia.wsync {
            Some(self.skip_line())
        } else {
            self.run_instruction()
        }
    }

    /// WSYNC: fast-forward to the end of the scanline instead of ticking one
    /// cycle at a time.
    fn skip_line(&mut self) -> (r: u64)
        requires
            old(self).wf(),
        ensures
            final(self).cpu == old(self).cpu,
            r == old(self).bus.tia.spec_cycles_left(),
            final(self).bus.view() == (HeadlessState {
                tia: HeadlessTia { clock: 228, ..old(self).bus.tia }.spec_end_scanline(),
                pia: old(self).bus.pia.spec_ticks((r as u16) as nat),
                ..old(self).bus.view()
            }),
            1 <= r <= 76,
            final(self).wf(),
    {
        let skipped = self.bus.tia.skip_to_scanline_end();
        proof {
            lemma_ticks_timer_only(self.bus.pia, skipped as nat);
        }
        self.bus.pia.tick_n(skipped);
        skipped as u64
    }

    /// One instruction, then the TIA and PIA advanced by its cycles.
    #[verifier::rlimit(100)]
    #[verifier::spinoff_prover]
    fn run_instruction(&mut self) -> (r: Option<u64>)
        requires
            old(self).wf(),
        ensures
            ({
                let cpu = old(self).cpu;
                let m = old(self).bus.view();
                if cpu.cycles > u64::MAX - 7 || !is_legal_opcode(m.spec_read(cpu.pc)) {
                    r is None
                } else {
                    let (c2, m2, n) = step_spec::<HeadlessBus>(cpu, m);
                    &&& r == Some(n as u64)
                    &&& final(self).cpu == c2
                    &&& final(self).bus.view() == (HeadlessState {
                        tia: m2.tia.spec_tick_n(n as int),
                        pia: m2.pia.spec_ticks((n as u16) as nat),
                        ..m2
                    })
                    &&& 1 <= n <= 9
                }
            }),
            final(self).wf(),
    {
        if self.cpu.cycles > u64::MAX - 7 {
            return None;
        }
        let ghost m0 = self.bus.view();
        let c = match self.cpu.try_step(&mut self.bus) {
            Some(n) => n,
            None => return None,
        };
        proof {
            lemma_step_matches_tables::<HeadlessBus>(old(self).cpu, m0);
            lemma_tables_small(m0.spec_read(old(self).cpu.pc));
        }
        // Batch-advance TIA and PIA instead of per-cycle loop
        self.bus.advance(c);
        Some(c as u64)
    }
}


impl HeadlessAtari {
    /// Run the console until the next frame is complete. Returns the number
    /// of CPU cycles executed; `None` where an instruction the CPU does not
    /// implement stops the console, or a cycle counter would overflow.
    #[verifier::spinoff_prover]
    #[verifier::rlimit(50)]
    pub fn run_frame(&mut self) -> (r: Option<u64>)
        requires
            old(self).wf(),
        ensures
            final(self).wf(),
            r is Some ==> headless_frame_ran(
                old(self).cpu,
                old(self).bus.view().frame_start(),
                final(self).cpu,
                final(self).bus.view(),
                r->0,
            ) && r->0 >= 1,
            r is None ==> exists|k1: nat, k: nat|
                #[trigger] headless_frame_halts(
                    old(self).cpu,
                    old(self).bus.view().frame_start(),
                    k1,
                    k,
                ),
    {
        let t = HeadlessTia { frame_complete: false, ..self.bus.tia };
        self.bus.tia = t;
        let ghost c0 = self.cpu;
        let ghost m0 = self.bus.view();
        let mut cycles: u64 = 0;
        let ghost mut i: nat = 0;
        // Phase 1: while in VSYNC, run until VSYNC ends
        while self.bus.tia.vsync & 0x02 != 0
            invariant
                self.wf(),
                c0 == old(self).cpu,
                m0 == old(self).bus.view().frame_start(),
                headless_steps(c0, m0, i) == Some((self.cpu, self.bus.view(), cycles as int)),
                forall|j: nat| j < i ==> #[trigger] headless_vsync_at(c0, m0, j),
            decreases u64::MAX - cycles,
        {
            if cycles > u64::MAX - 256 {
                assert(headless_halts(c0, m0, i));
                assert(headless_frame_halts(c0, m0, i, i));
                return None;
            }
            assert(headless_vsync_at(c0, m0, i));
            proof {
                lemma_headless_steps_next(c0, m0, i);
            }
            match self.run_one_cycle() {
                Some(d) => {
                    cycles = cycles + d;
                },
                None => {
                    assert(headless_halts(c0, m0, i + 1));
                    assert(headless_frame_halts(c0, m0, i + 1, i + 1));
                    return None;
                },
            }
            proof {
                i = i + 1;
            }
        }
        // Phase 2: run until the next VSYNC starts (= end of this frame)
        let ghost k1 = i;
        loop
            invariant_except_break
                !vsync_on(self.bus.tia),
                i > k1 ==> cycles <= 100_000,
            invariant
                self.wf(),
                c0 == old(self).cpu,
                m0 == old(self).bus.view().frame_start(),
                k1 <= i,
                i > k1 ==> cycles >= 1,
                headless_steps(c0, m0, i) == Some((self.cpu, self.bus.view(), cycles as int)),
                forall|j: nat| j < k1 ==> #[trigger] headless_vsync_at(c0, m0, j),
                forall|j: nat|
                    k1 <= j < i ==> (#[trigger] headless_steps(c0, m0, j) matches Some((c, b, t))
                        && !vsync_on(b.tia) && (j > k1 ==> t <= 100_000)),
            ensures
                self.wf(),
                k1 < i,
                headless_steps(c0, m0, i) == Some((self.cpu, self.bus.view(), cycles as int)),
                forall|j: nat| j < k1 ==> #[trigger] headless_vsync_at(c0, m0, j),
                forall|j: nat|
                    k1 <= j < i ==> (#[trigger] headless_steps(c0, m0, j) matches Some((c, b, t))
                        && !vsync_on(b.tia) && (j > k1 ==> t <= 100_000)),
                vsync_on(self.bus.tia) || cycles > 100_000,
                cycles >= 1,
            decreases 100_001 - cycles,
        {
            if cycles > u64::MAX - 256 {
                assert(headless_halts(c0, m0, i));
                assert(headless_frame_halts(c0, m0, k1, i));
                return None;
            }
            let ghost cpu_before = self.cpu;
            let ghost bus_before = self.bus.view();
            let ghost cycles_before = cycles;
            proof {
                lemma_headless_steps_next(c0, m0, i);
            }
            match self.run_one_cycle() {
                Some(d) => {
                    cycles = cycles + d;
                },
                None => {
                    assert(headless_halts(c0, m0, i + 1));
                    assert(headless_steps(c0, m0, i) == Some((cpu_before, bus_before, cycles_before as int)));
                    assert(headless_frame_halts(c0, m0, k1, i + 1));
                    return None;
                },
            }
            proof {
                assert(headless_steps(c0, m0, i) == Some((cpu_before, bus_before, cycles_before as int)));
                i = i + 1;
            }
            if cycles > 100_000 {
                break;
            }
            if self.bus.tia.vsync & 0x02 != 0 {
                break;
            }
        }
        let ghost k2: nat = (i - k1) as nat;
        assert(headless_frame_run(c0, m0, k1, k2, self.cpu, self.bus.view(), cycles));
        assert(headless_frame_ran(c0, m0, self.cpu, self.bus.view(), cycles));
        Some(cycles)
    }

    /// Access PIA RAM for observation (128 bytes at $0080–$00FF in flat memory).
    pub fn ram(&self) -> (r: &[u8])
        requires
            self.wf(),
        ensures
            r@ == self.bus.view().mem.subrange(0x80, 0x100),
            r@ == self.bus.pia.ram@,
    {
        let r = vstd::slice::slice_subrange(self.bus.mem.as_slice(), 0x80, 0x100);
        proof {
            assert(r@ =~= self.bus.pia.ram@) by {
                assert forall|i: int| 0 <= i < 128 implies r@[i] == self.bus.pia.ram@[i] by {
                    assert(self.bus.view().mem[0x80 + i] == self.bus.pia.ram[i]);
                }
            }
        }
        r
    }
}

impl Atari {
    /// Get the current framebuffer as NTSC palette indices (160 x 192).
    pub fn framebuffer(&self) -> (r: &[u8; FRAME_PIXELS])
        ensures
            *r == *self.bus.tia.framebuffer,
    {
        &self.bus.tia.framebuffer
    }
}


/// NTSC colour palette (128 colours), indexed by the upper seven bits of a
/// TIA colour register value.
pub const PALETTE: [(u8, u8, u8); 128] = [
        (0, 0, 0), (0, 0, 0), (68, 68, 0), (68, 68, 0), (112, 40, 0), (112, 40, 0), (132, 24, 0), (132, 24, 0),
        (136, 0, 0), (136, 0, 0), (120, 0, 92), (120, 0, 92), (72, 0, 120), (72, 0, 120), (20, 0, 132), (20, 0, 132),
        (0, 0, 136), (0, 0, 136), (0, 0, 120), (0, 0, 120), (0, 0, 96), (0, 0, 96), (0, 20, 44), (0, 20, 44),
        (0, 40, 0), (0, 40, 0), (0, 44, 0), (0, 44, 0), (0, 44, 0), (0, 44, 0), (0, 24, 0), (0, 24, 0),
        (40, 40, 40), (40, 40, 40), (100, 100, 16), (100, 100, 16), (144, 72, 16), (144, 72, 16), (168, 56, 0), (168, 56, 0),
        (184, 20, 0), (184, 20, 0), (160, 0, 116), (160, 0, 116), (100, 0, 164), (100, 0, 164), (48, 0, 176), (48, 0, 176),
        (0, 0, 184), (0, 0, 184), (0, 24, 168), (0, 24, 168), (0, 44, 128), (0, 44, 128), (0, 60, 76), (0, 60, 76),
        (0, 68, 0), (0, 68, 0), (0, 76, 0), (0, 76, 0), (0, 68, 0), (0, 68, 0), (0, 56, 0), (0, 56, 0),
        (84, 84, 84), (84, 84, 84), (132, 132, 36), (132, 132, 36), (176, 100, 36), (176, 100, 36), (200, 80, 16), (200, 80, 16),
        (220, 56, 20), (220, 56, 20), (196, 20, 144), (196, 20, 144), (132, 0, 200), (132, 0, 200), (80, 0, 212), (80, 0, 212),
        (24, 0, 220), (24, 0, 220), (0, 48, 212), (0, 48, 212), (0, 76, 164), (0, 76, 164), (0, 92, 108), (0, 92, 108),
        (0, 100, 0), (0, 100, 0), (0, 108, 0), (0, 108, 0), (0, 100, 16), (0, 100, 16), (0, 84, 0), (0, 84, 0),
        (120, 120, 120), (120, 120, 120), (168, 168, 56), (168, 168, 56), (204, 136, 56), (204, 136, 56), (232, 112, 36), (232, 112, 36),
        (252, 92, 40), (252, 92, 40), (232, 48, 172), (232, 48, 172), (168, 0, 232), (168, 0, 232), (112, 0, 244), (112, 0, 244),
        (56, 0, 252), (56, 0, 252), (12, 76, 248), (12, 76, 248), (0, 108, 196), (0, 108, 196), (0, 128, 140), (0, 128, 140),
        (0, 136, 0), (0, 136, 0), (0, 144, 0), (0, 144, 0), (0, 136, 40), (0, 136, 40), (0, 116, 0), (0, 116, 0),
];

/// RGB of an NTSC palette index (upper 7 bits used, bit 0 ignored).
pub open spec fn palette_rgb(idx: u8) -> (u8, u8, u8) {
    PALETTE[((idx >> 1u8) & 0x7F) as int]
}

/// NTSC colour palette lookup: (R, G, B) for a TIA colour register value.
pub fn ntsc_palette(idx: u8) -> (r: (u8, u8, u8))
    ensures
        r == palette_rgb(idx),
{
    assert((idx >> 1u8) & 0x7Fu8 < 128) by (bit_vector);
    PALETTE[((idx >> 1) & 0x7F) as usize]
}

/// Number of joystick actions a console accepts.
pub const ACTION_COUNT: usize = 18;

impl Atari {
    /// The framebuffer as a vector of palette indices, row by row.
    pub fn observation(&self) -> (r: Vec<u8>)
        ensures
            r@ == self.bus.tia.framebuffer@,
    {
        let fb = &self.bus.tia.framebuffer;
        let mut out: Vec<u8> = Vec::new();
        let mut i: usize = 0;
        while i < FRAME_PIXELS
            invariant
                i <= FRAME_PIXELS,
                fb@.len() == FRAME_PIXELS,
                *fb == self.bus.tia.framebuffer,
                out@ == fb@.subrange(0, i as int),
            decreases FRAME_PIXELS - i,
        {
            out.push(fb[i]);
            i = i + 1;
            proof {
                assert(out@ =~= fb@.subrange(0, i as int));
            }
        }
        proof {
            assert(out@ =~= fb@);
        }
        out
    }

    /// Power-cycle the console (CPU, TIA and PIA reset; the cartridge keeps
    /// its bank) and run one frame; returns the first observation, or `None`
    /// where that frame stops on an instruction the CPU does not implement.
    pub fn reset(&mut self) -> (r: Option<Vec<u8>>)
        requires
            old(self).wf(),
        ensures
            final(self).wf(),
            ({
                let b0 = Bus { tia: Tia::spec_new(), pia: Pia::spec_new(), ..old(self).bus };
                let lo = b0.spec_read(0xFFFC);
                let b1 = b0.spec_after_read(0xFFFC);
                let hi = b1.spec_read(0xFFFD);
                let a = Atari {
                    cpu: Cpu { pc: word(lo, hi), ..Cpu::spec_default() },
                    bus: b1.spec_after_read(0xFFFD),
                    pending_cycles: 0,
                };
                &&& r is Some ==> (exists|t: u64| frame_ran(a, *final(self), t)) && r->0@
                    == final(self).bus.tia.framebuffer@
                &&& r is None ==> exists|k1: nat, k: nat| #[trigger] frame_halts(a, k1, k)
            }),
    {
        self.cpu = Cpu::new();
        self.bus.tia = Tia::new();
        self.bus.pia = Pia::new();
        self.pending_cycles = 0;
        self.cpu.reset(&mut self.bus);
        // Run one frame to get the initial observation
        match self.run_frame() {
            Some(t) => Some(self.observation()),
            None => None,
        }
    }

    /// Apply `action`, run one frame, and return the new observation;
    /// `None` where the frame stops on an instruction the CPU does not implement.
    pub fn step(&mut self, action: Action) -> (r: Option<Vec<u8>>)
        requires
            old(self).wf(),
        ensures
            final(self).wf(),
            r is Some ==> (exists|t: u64| frame_ran(old(self).spec_set_action(action), *final(self), t))
                && r->0@ == final(self).bus.tia.framebuffer@,
            r is None ==> exists|k1: nat, k: nat|
                #[trigger] frame_halts(old(self).spec_set_action(action), k1, k),
    {
        self.set_action(action);
        match self.run_frame() {
            Some(t) => Some(self.observation()),
            None => None,
        }
    }

    /// RGBA pixels of the framebuffer (alpha 255), row by row.
    pub fn render(&self) -> (r: Vec<u8>)
        ensures
            r@.len() == 4 * FRAME_PIXELS,
            forall|i: int|
                0 <= i < FRAME_PIXELS ==> {
                    let (cr, cg, cb) = palette_rgb(self.bus.tia.framebuffer@[i]);
                    &&& #[trigger] r@[4 * i] == cr
                    &&& r@[4 * i + 1] == cg
                    &&& r@[4 * i + 2] == cb
                    &&& r@[4 * i + 3] == 255
                },
    {
        let fb = &self.bus.tia.framebuffer;
        let mut rgba: Vec<u8> = Vec::new();
        let mut i: usize = 0;
        while i < FRAME_PIXELS
            invariant
                i <= FRAME_PIXELS,
                fb@.len() == FRAME_PIXELS,
                *fb == self.bus.tia.framebuffer,
                rgba@.len() == 4 * i,
                forall|k: int|
                    0 <= k < i ==> {
                        let (cr, cg, cb) = palette_rgb(fb@[k]);
                        &&& #[trigger] rgba@[4 * k] == cr
                        &&& rgba@[4 * k + 1] == cg
                        &&& rgba@[4 * k + 2] == cb
                        &&& rgba@[4 * k + 3] == 255
                    },
            decreases FRAME_PIXELS - i,
        {
            let (cr, cg, cb) = ntsc_palette(fb[i]);
            let ghost before = rgba@;
            rgba.push(cr);
            rgba.push(cg);
            rgba.push(cb);
            rgba.push(255);
            proof {
                assert forall|k: int| 0 <= k < i + 1 implies {
                    let (pr, pg, pb) = palette_rgb(fb@[k]);
                    &&& #[trigger] rgba@[4 * k] == pr
                    &&& rgba@[4 * k + 1] == pg
                    &&& rgba@[4 * k + 2] == pb
                    &&& rgba@[4 * k + 3] == 255
                } by {
                    if k < i {
                        assert(rgba@[4 * k] == before[4 * k]);
                        assert(rgba@[4 * k + 1] == before[4 * k + 1]);
                        assert(rgba@[4 * k + 2] == before[4 * k + 2]);
                        assert(rgba@[4 * k + 3] == before[4 * k + 3]);
                    }
                }
            }
            i = i + 1;
        }
        rgba
    }

    /// Number of joystick actions.
    pub fn action_space(&self) -> (r: usize)
        ensures
            r == 18,
    {
        ACTION_COUNT
    }

    /// Observation shape: (height, width, channels) of palette indices.
    pub fn observation_shape(&self) -> (r: (usize, usize, usize))
        ensures
            r == (192usize, 160usize, 1usize),
    {
        (crate::tia::FRAME_HEIGHT, crate::tia::FRAME_WIDTH, 1)
    }
}

} // verus!
