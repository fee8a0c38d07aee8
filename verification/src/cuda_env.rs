//! Machine state in the flat layout a GPU kernel works on, and the choice of
//! kernel and launch geometry for a batch of consoles.
use vstd::prelude::*;
use crate::atari::{BankScheme, HeadlessAtari, HeadlessState, headless_frame_halts, headless_frame_ran, headless_rom_ok};
use crate::cpu::Cpu;

verus! {

/// Console state in the GPU kernel's field order, flags as 0/1 bytes.
#[derive(Clone, Copy, Debug)]
pub struct AtariStateGpu {
    pub a: u8,
    pub x: u8,
    pub y: u8,
    pub sp: u8,
    pub pc: u16,
    pub status: u8,
    pub _pad0: u8,
    pub ram: [u8; 128],
    pub port_a_output: u8,
    pub port_a_ddr: u8,
    pub port_a_input: u8,
    pub port_b_output: u8,
    pub port_b_ddr: u8,
    pub port_b_input: u8,
    pub timer_value: u16,
    pub timer_prescaler: u16,
    pub timer_prescaler_select: u16,
    pub timer_underflow: u8,
    pub _pad1: u8,
    pub _pad2: u8,
    pub _pad3: u8,
    pub tia_clock: u16,
    pub tia_scanline: u16,
    pub tia_wsync: u8,
    pub tia_frame_complete: u8,
    pub tia_vsync: u8,
    pub tia_vblank: u8,
    pub cxm0p: u8,
    pub cxm1p: u8,
    pub cxp0fb: u8,
    pub cxp1fb: u8,
    pub cxm0fb: u8,
    pub cxm1fb: u8,
    pub cxblpf: u8,
    pub cxppmm: u8,
    pub inpt4: u8,
    pub inpt5: u8,
    pub paddle0: u8,
    pub paddle1: u8,
    pub paddle_counter: u16,
    pub paddle_dumped: u8,
    pub _pad4: u8,
    pub pos_p0: u16,
    pub pos_p1: u16,
    pub pos_m0: u16,
    pub pos_m1: u16,
    pub pos_bl: u16,
    pub hmp0: u8,
    pub hmp1: u8,
    pub hmm0: u8,
    pub hmm1: u8,
    pub hmbl: u8,
    pub _pad5: u8,
    pub grp0: u8,
    pub grp1: u8,
    pub grp0_old: u8,
    pub grp1_old: u8,
    pub enam0: u8,
    pub enam1: u8,
    pub enabl: u8,
    pub enabl_old: u8,
    pub vdelp0: u8,
    pub vdelp1: u8,
    pub vdelbl: u8,
    pub resmp0: u8,
    pub resmp1: u8,
    pub nusiz0: u8,
    pub nusiz1: u8,
    pub colup0: u8,
    pub colup1: u8,
    pub colupf: u8,
    pub colubk: u8,
    pub ctrlpf: u8,
    pub refp0: u8,
    pub refp1: u8,
    pub pf0: u8,
    pub pf1: u8,
    pub pf2: u8,
    pub bank: u8,
    pub scheme: u8,
    pub _pad_end: [u8; 2],
}

/// Code of a bank scheme in the GPU state: Fixed 0, F8 1, F6 2, F4 3.
pub open spec fn spec_scheme_code(s: BankScheme) -> u8 {
    match s {
        BankScheme::Fixed => 0,
        BankScheme::F8 => 1,
        BankScheme::F6 => 2,
        BankScheme::F4 => 3,
    }
}

fn scheme_code(s: BankScheme) -> (r: u8)
    ensures
        r == spec_scheme_code(s),
{
    match s {
        BankScheme::Fixed => 0,
        BankScheme::F8 => 1,
        BankScheme::F6 => 2,
        BankScheme::F4 => 3,
    }
}

/// A flag as a 0/1 byte.
fn flag(b: bool) -> (r: u8)
    ensures
        r == if b {
            1u8
        } else {
            0u8
        },
{
    if b {
        1
    } else {
        0
    }
}

impl AtariStateGpu {
    /// The GPU state of a console with CPU `cpu` and headless bus state `m`.
    pub open spec fn spec_from(cpu: Cpu, m: HeadlessState) -> AtariStateGpu {
        let tia = m.tia;
        let pia = m.pia;
        AtariStateGpu {
            a: cpu.a,
            x: cpu.x,
            y: cpu.y,
            sp: cpu.sp,
            pc: cpu.pc,
            status: cpu.status.0,
            _pad0: 0u8,
            ram: pia.ram,
            port_a_output: pia.port_a_output,
            port_a_ddr: pia.port_a_ddr,
            port_a_input: pia.port_a_input,
            port_b_output: pia.port_b_output,
            port_b_ddr: pia.port_b_ddr,
            port_b_input: pia.port_b_input,
            timer_value: pia.timer_value,
            timer_prescaler: pia.timer_prescaler,
            timer_prescaler_select: pia.timer_prescaler_select,
            timer_underflow: (if pia.timer_underflow { 1u8 } else { 0u8 }),
            _pad1: 0u8,
            _pad2: 0u8,
            _pad3: 0u8,
            tia_clock: tia.clock,
            tia_scanline: tia.scanline,
            tia_wsync: (if tia.wsync { 1u8 } else { 0u8 }),
            tia_frame_complete: (if tia.frame_complete { 1u8 } else { 0u8 }),
            tia_vsync: tia.vsync,
            tia_vblank: tia.vblank,
            cxm0p: tia.cxm0p,
            cxm1p: tia.cxm1p,
            cxp0fb: tia.cxp0fb,
            cxp1fb: tia.cxp1fb,
            cxm0fb: tia.cxm0fb,
            cxm1fb: tia.cxm1fb,
            cxblpf: tia.cxblpf,
            cxppmm: tia.cxppmm,
            inpt4: (if tia.inpt4 { 1u8 } else { 0u8 }),
            inpt5: (if tia.inpt5 { 1u8 } else { 0u8 }),
            paddle0: tia.paddle0,
            paddle1: tia.paddle1,
            paddle_counter: tia.paddle_counter,
            paddle_dumped: (if tia.paddle_dumped { 1u8 } else { 0u8 }),
            _pad4: 0u8,
            pos_p0: tia.pos_p0,
            pos_p1: tia.pos_p1,
            pos_m0: tia.pos_m0,
            pos_m1: tia.pos_m1,
            pos_bl: tia.pos_bl,
            hmp0: tia.hmp0,
            hmp1: tia.hmp1,
            hmm0: tia.hmm0,
            hmm1: tia.hmm1,
            hmbl: tia.hmbl,
            _pad5: 0u8,
            grp0: tia.grp0,
            grp1: tia.grp1,
            grp0_old: tia.grp0_old,
            grp1_old: tia.grp1_old,
            enam0: (if tia.enam0 { 1u8 } else { 0u8 }),
            enam1: (if tia.enam1 { 1u8 } else { 0u8 }),
            enabl: (if tia.enabl { 1u8 } else { 0u8 }),
            enabl_old: (if tia.enabl_old { 1u8 } else { 0u8 }),
            vdelp0: (if tia.vdelp0 { 1u8 } else { 0u8 }),
            vdelp1: (if tia.vdelp1 { 1u8 } else { 0u8 }),
            vdelbl: (if tia.vdelbl { 1u8 } else { 0u8 }),
            resmp0: (if tia.resmp0 { 1u8 } else { 0u8 }),
            resmp1: (if tia.resmp1 { 1u8 } else { 0u8 }),
            nusiz0: tia.nusiz0,
            nusiz1: tia.nusiz1,
            colup0: tia.colup0,
            colup1: tia.colup1,
            colupf: tia.colupf,
            colubk: tia.colubk,
            ctrlpf: tia.ctrlpf,
            refp0: (if tia.refp0 { 1u8 } else { 0u8 }),
            refp1: (if tia.refp1 { 1u8 } else { 0u8 }),
            pf0: tia.pf0,
            pf1: tia.pf1,
            pf2: tia.pf2,
            bank: (m.bank % 256) as u8,
            scheme: spec_scheme_code(m.scheme),
            _pad_end: [0u8, 0u8],
        }
    }

    /// The GPU state of a headless console.
    pub fn from_headless(atari: &HeadlessAtari) -> (r: Self)
        ensures
            r == AtariStateGpu::spec_from(atari.cpu, atari.bus.view()),
    {
        let cpu = &atari.cpu;
        let bus = &atari.bus;
        let tia = &bus.tia;
        let pia = &bus.pia;
        AtariStateGpu {
            a: cpu.a,
            x: cpu.x,
            y: cpu.y,
            sp: cpu.sp,
            pc: cpu.pc,
            status: cpu.status.0,
            _pad0: 0,
            ram: pia.ram,
            port_a_output: pia.port_a_output,
            port_a_ddr: pia.port_a_ddr,
            port_a_input: pia.port_a_input,
            port_b_output: pia.port_b_output,
            port_b_ddr: pia.port_b_ddr,
            port_b_input: pia.port_b_input,
            timer_value: pia.timer_value,
            timer_prescaler: pia.timer_prescaler,
            timer_prescaler_select: pia.timer_prescaler_select,
            timer_underflow: flag(pia.timer_underflow),
            _pad1: 0,
            _pad2: 0,
            _pad3: 0,
            tia_clock: tia.clock,
            tia_scanline: tia.scanline,
            tia_wsync: flag(tia.wsync),
            tia_frame_complete: flag(tia.frame_complete),
            tia_vsync: tia.vsync,
            tia_vblank: tia.vblank,
            cxm0p: tia.cxm0p,
            cxm1p: tia.cxm1p,
            cxp0fb: tia.cxp0fb,
            cxp1fb: tia.cxp1fb,
            cxm0fb: tia.cxm0fb,
            cxm1fb: tia.cxm1fb,
            cxblpf: tia.cxblpf,
            cxppmm: tia.cxppmm,
            inpt4: flag(tia.inpt4),
            inpt5: flag(tia.inpt5),
            paddle0: tia.paddle0,
            paddle1: tia.paddle1,
            paddle_counter: tia.paddle_counter,
            paddle_dumped: flag(tia.paddle_dumped),
            _pad4: 0,
            pos_p0: tia.pos_p0,
            pos_p1: tia.pos_p1,
            pos_m0: tia.pos_m0,
            pos_m1: tia.pos_m1,
            pos_bl: tia.pos_bl,
            hmp0: tia.hmp0,
            hmp1: tia.hmp1,
            hmm0: tia.hmm0,
            hmm1: tia.hmm1,
            hmbl: tia.hmbl,
            _pad5: 0,
            grp0: tia.grp0,
            grp1: tia.grp1,
            grp0_old: tia.grp0_old,
            grp1_old: tia.grp1_old,
            enam0: flag(tia.enam0),
            enam1: flag(tia.enam1),
            enabl: flag(tia.enabl),
            enabl_old: flag(tia.enabl_old),
            vdelp0: flag(tia.vdelp0),
            vdelp1: flag(tia.vdelp1),
            vdelbl: flag(tia.vdelbl),
            resmp0: flag(tia.resmp0),
            resmp1: flag(tia.resmp1),
            nusiz0: tia.nusiz0,
            nusiz1: tia.nusiz1,
            colup0: tia.colup0,
            colup1: tia.colup1,
            colupf: tia.colupf,
            colubk: tia.colubk,
            ctrlpf: tia.ctrlpf,
            refp0: flag(tia.refp0),
            refp1: flag(tia.refp1),
            pf0: tia.pf0,
            pf1: tia.pf1,
            pf2: tia.pf2,
            bank: (bus.bank % 256) as u8,
            scheme: scheme_code(bus.scheme),
            _pad_end: [0u8, 0u8],
        }
    }
}

/// `st` and `ram` are the GPU state and RAM of a console powered on with
/// `rom` after one frame run.
pub open spec fn initial_state_ok(rom: Seq<u8>, st: AtariStateGpu, ram: Seq<u8>) -> bool {
    let (c0, m0) = HeadlessAtari::spec_new(rom);
    exists|c: Cpu, m: HeadlessState, t: u64|
        #[trigger] headless_frame_ran(c0, m0.frame_start(), c, m, t) && st == AtariStateGpu::spec_from(
            c,
            m,
        ) && ram == m.mem.subrange(0x80, 0x100)
}

/// Initial states of a batch of `n` consoles: each is powered on with the
/// ROM and run for one frame; returns each console's RAM and its GPU state.
/// `None` where that frame stops on an instruction the CPU does not implement.
pub fn initial_states(rom: &Vec<u8>, n: usize) -> (r: Option<(Vec<Vec<u8>>, Vec<AtariStateGpu>)>)
    requires
        headless_rom_ok(rom@.len() as int),
    ensures
        r matches Some((obs, states)) ==> {
            &&& obs@.len() == n
            &&& states@.len() == n
            &&& forall|i: int| 0 <= i < n ==> #[trigger] initial_state_ok(rom@, states@[i], obs@[i]@)
        },
        r is None ==> ({
            let (c0, m0) = HeadlessAtari::spec_new(rom@);
            exists|k1: nat, k: nat| #[trigger] headless_frame_halts(c0, m0.frame_start(), k1, k)
        }),
{
    let mut gpu_states: Vec<AtariStateGpu> = Vec::new();
    let mut obs: Vec<Vec<u8>> = Vec::new();
    let mut i: usize = 0;
    while i < n
        invariant
            i <= n,
            headless_rom_ok(rom@.len() as int),
            obs@.len() == i,
            gpu_states@.len() == i,
            forall|k: int| 0 <= k < i ==> #[trigger] initial_state_ok(rom@, gpu_states@[k], obs@[k]@),
        decreases n - i,
    {
        let copy = rom.clone();
        assert(copy@ =~= rom@);
        let mut emu = HeadlessAtari::new(copy);
        proof {
            let (c0, m0) = HeadlessAtari::spec_new(rom@);
            assert(emu.cpu == c0 && emu.bus.view() == m0);
        }
        let t = match emu.run_frame() {
            Some(t) => t,
            None => return None,
        };
        let ram = vstd::slice::slice_to_vec(emu.ram());
        let st = AtariStateGpu::from_headless(&emu);
        let ghost os = obs@;
        let ghost gs = gpu_states@;
        proof {
            let (c0, m0) = HeadlessAtari::spec_new(rom@);
            assert(headless_frame_ran(c0, m0.frame_start(), emu.cpu, emu.bus.view(), t));
            assert(initial_state_ok(rom@, st, ram@));
        }
        obs.push(ram);
        gpu_states.push(st);
        proof {
            assert forall|k: int| 0 <= k < i + 1 implies #[trigger] initial_state_ok(
                rom@,
                gpu_states@[k],
                obs@[k]@,
            ) by {
                if k < i {
                    assert(gpu_states@[k] == gs[k] && obs@[k] == os[k]);
                }
            }
        }
        i = i + 1;
    }
    Some((obs, gpu_states))
}

/// Kernel variants of the batch environment.
#[derive(Clone, Copy, Debug, PartialEq, Eq, Structural)]
pub enum KernelVariant {
    Default,
    Sorted,
    Ldg,
}

/// The variant for a sorted / unsorted choice.
pub fn sorted_variant(sorted: bool) -> (r: KernelVariant)
    ensures
        r == if sorted {
            KernelVariant::Sorted
        } else {
            KernelVariant::Default
        },
{
    if sorted {
        KernelVariant::Sorted
    } else {
        KernelVariant::Default
    }
}

/// Kernel that runs one frame for each console, by variant.
pub fn frame_kernel_name(v: KernelVariant) -> (r: &'static str)
    ensures
        v == KernelVariant::Default ==> r@ == "atari_frame_kernel"@,
        v == KernelVariant::Sorted ==> r@ == "atari_frame_kernel_sorted"@,
        v == KernelVariant::Ldg ==> r@ == "atari_frame_kernel_ldg"@,
{
    match v {
        KernelVariant::Default => "atari_frame_kernel",
        KernelVariant::Sorted => "atari_frame_kernel_sorted",
        KernelVariant::Ldg => "atari_frame_kernel_ldg",
    }
}

/// Kernel that runs several frames for each console, by variant (the sorted
/// one, or the plain one otherwise).
pub fn multi_frame_kernel_name(v: KernelVariant) -> (r: &'static str)
    ensures
        v == KernelVariant::Sorted ==> r@ == "atari_multi_frame_kernel_sorted"@,
        v != KernelVariant::Sorted ==> r@ == "atari_multi_frame_kernel"@,
{
    match v {
        KernelVariant::Sorted => "atari_multi_frame_kernel_sorted",
        _ => "atari_multi_frame_kernel",
    }
}

/// Threads per block of every kernel launch.
pub const BLOCK_SIZE: u32 = 128;

/// Blocks needed to cover `n` consoles with `BLOCK_SIZE` threads each.
pub fn grid_size(n: u32) -> (r: u32)
    requires
        n + BLOCK_SIZE <= u32::MAX,
    ensures
        r == (n + BLOCK_SIZE - 1) / BLOCK_SIZE as int,
        r * BLOCK_SIZE >= n,
{
    (n + BLOCK_SIZE - 1) / BLOCK_SIZE
}

} // verus!
