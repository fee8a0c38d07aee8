//! Reinforcement-learning environments over the console: a full-rendering
//! one with framebuffer observations and a headless one with RAM
//! observations (128 bytes), both with frameskip and an episode step limit.
use vstd::prelude::*;
use crate::atari::{
    Action, Atari, HeadlessAtari, HeadlessState, action_at, frame_ran, headless_frame_ran,
    headless_frame_halts, headless_rom_ok, headless_with_action, frame_halts,
};
use crate::cpu::Cpu;
use crate::tia::FRAME_PIXELS;

verus! {

/// Number of ALE-compatible joystick actions.
pub const NUM_ACTIONS: usize = 18;

/// Default max steps per episode before truncation (108_000 frames ≈ 30 min at 60fps).
pub const DEFAULT_MAX_STEPS: usize = 108_000;

/// Number of frames to skip per step (action repeat / frameskip).
pub const DEFAULT_FRAMESKIP: usize = 4;

/// One frame run leads from `a` to `b`.
pub open spec fn frame_step(a: Atari, b: Atari) -> bool {
    exists|t: u64| #[trigger] frame_ran(a, b, t)
}

/// Each state of `states` is reached from the one before by a frame run.
pub open spec fn frame_chain(states: Seq<Atari>) -> bool {
    forall|k: int| 0 <= k < states.len() - 1 ==> #[trigger] frame_step(states[k], states[k + 1])
}

/// `n` frame runs in a row lead from `a` to `b`.
pub open spec fn frames_ran(a: Atari, b: Atari, n: nat) -> bool {
    exists|states: Seq<Atari>|
        #[trigger] frame_chain(states) && states.len() == n + 1 && states[0] == a && states[n as int]
            == b
}

/// One headless frame run leads from (`c`, `m`) to (`cf`, `mf`).
pub open spec fn headless_frame_step(c: Cpu, m: HeadlessState, cf: Cpu, mf: HeadlessState) -> bool {
    exists|t: u64| #[trigger] headless_frame_ran(c, m.frame_start(), cf, mf, t)
}

/// Each state of `states` is reached from the one before by a headless frame run.
pub open spec fn headless_frame_chain(states: Seq<(Cpu, HeadlessState)>) -> bool {
    forall|k: int|
        0 <= k < states.len() - 1 ==> #[trigger] headless_frame_step(
            states[k].0,
            states[k].1,
            states[k + 1].0,
            states[k + 1].1,
        )
}

/// `n` headless frame runs in a row lead from (`c`, `m`) to (`cf`, `mf`).
pub open spec fn headless_frames_ran(c: Cpu, m: HeadlessState, cf: Cpu, mf: HeadlessState, n: nat) -> bool {
    exists|states: Seq<(Cpu, HeadlessState)>|
        #[trigger] headless_frame_chain(states) && states.len() == n + 1 && states[0] == (c, m)
            && states[n as int] == (cf, mf)
}

/// Whether an episode that has taken `step_count` steps is cut off by the
/// step limit (0 = unlimited).
pub open spec fn truncated_at(max_steps: usize, step_count: usize) -> bool {
    max_steps > 0 && step_count >= max_steps
}

/// Atari 2600 environment with framebuffer observations.
pub struct AtariEnv {
    pub console: Atari,
    pub rom: Vec<u8>,
    pub step_count: usize,
    pub max_steps: usize,
    pub frameskip: usize,
}

/// A copy of a ROM image.
fn copy_rom(rom: &Vec<u8>) -> (r: Vec<u8>)
    ensures
        r@ == rom@,
{
    let r = rom.clone();
    assert(r@ =~= rom@);
    r
}

impl AtariEnv {
    /// Create a new environment from a ROM binary.
    pub fn new(rom: Vec<u8>) -> (r: Self)
        requires
            rom@.len() > 0,
        ensures
            r.console == Atari::spec_new(r.console.bus.rom),
            r.console.bus.rom@ == rom@,
            r.rom@ == rom@,
            r.step_count == 0,
            r.max_steps == DEFAULT_MAX_STEPS,
            r.frameskip == DEFAULT_FRAMESKIP,
    {
        AtariEnv {
            console: Atari::new(copy_rom(&rom)),
            rom,
            step_count: 0,
            max_steps: DEFAULT_MAX_STEPS,
            frameskip: DEFAULT_FRAMESKIP,
        }
    }

    /// Set maximum steps per episode (0 = unlimited).
    pub fn with_max_steps(self, max_steps: usize) -> (r: Self)
        ensures
            r == (AtariEnv { max_steps, ..self }),
    {
        let mut s = self;
        s.max_steps = max_steps;
        s
    }

    /// Set number of frames to skip per step (action repeat).
    pub fn with_frameskip(self, frameskip: usize) -> (r: Self)
        ensures
            r == (AtariEnv { frameskip, ..self }),
    {
        let mut s = self;
        s.frameskip = frameskip;
        s
    }

    /// Get the raw framebuffer as palette indices.
    pub fn framebuffer(&self) -> (r: &[u8; FRAME_PIXELS])
        ensures
            *r == *self.console.bus.tia.framebuffer,
    {
        self.console.framebuffer()
    }

    /// Start a new episode: a fresh console for the ROM, the step count
    /// cleared, and one frame run. Returns the frame's cycles; `None` where
    /// the frame stops on an instruction the CPU does not implement.
    pub fn reset(&mut self) -> (r: Option<u64>)
        requires
            old(self).rom@.len() > 0,
        ensures
            final(self).rom == old(self).rom,
            final(self).step_count == 0,
            final(self).max_steps == old(self).max_steps,
            final(self).frameskip == old(self).frameskip,
            final(self).console.wf(),
            r is Some ==> exists|rom: Vec<u8>|
                rom@ == old(self).rom@ && #[trigger] frame_ran(
                    Atari::spec_new(rom),
                    final(self).console,
                    r->0,
                ),
            r is None ==> exists|rom: Vec<u8>, k1: nat, k: nat|
                rom@ == old(self).rom@ && #[trigger] frame_halts(Atari::spec_new(rom), k1, k),
    {
        let rom = copy_rom(&self.rom);
        let ghost rom0 = rom;
        self.console = Atari::new(rom);
        self.step_count = 0;
        // Run one frame to get the initial observation
        let r = self.console.run_frame();
        proof {
            if r is Some {
                assert(frame_ran(Atari::spec_new(rom0), self.console, r->0));
            } else {
                let (k1, k) = choose|k1: nat, k: nat| #[trigger] frame_halts(Atari::spec_new(rom0), k1, k);
                assert(frame_halts(Atari::spec_new(rom0), k1, k));
            }
        }
        r
    }

    /// Apply action number `action` and run `frameskip` frames; count the
    /// step. Returns whether the episode is truncated by the step limit;
    /// `None` where a frame stops on an instruction the CPU does not implement.
    pub fn step(&mut self, action: usize) -> (r: Option<bool>)
        requires
            old(self).console.wf(),
            old(self).step_count < usize::MAX,
        ensures
            final(self).console.wf(),
            final(self).rom == old(self).rom,
            final(self).max_steps == old(self).max_steps,
            final(self).frameskip == old(self).frameskip,
            r is Some ==> {
                &&& final(self).step_count == old(self).step_count + 1
                &&& r->0 == truncated_at(old(self).max_steps, final(self).step_count)
                &&& frames_ran(
                    old(self).console.spec_set_action(action_at(action)),
                    final(self).console,
                    old(self).frameskip as nat,
                )
            },
            r is None ==> exists|i: nat, mid: Atari, k1: nat, k: nat|
                i < old(self).frameskip && #[trigger] frames_ran(
                    old(self).console.spec_set_action(action_at(action)),
                    mid,
                    i,
                ) && #[trigger] frame_halts(mid, k1, k),
    {
        let act = Action::from_index(action);
        self.console.set_action(act);
        let ghost start = self.console;
        let ghost mut states: Seq<Atari> = seq![start];
        let mut i: usize = 0;
        while i < self.frameskip
            invariant
                i <= self.frameskip,
                self.console.wf(),
                self.rom == old(self).rom,
                self.max_steps == old(self).max_steps,
                self.frameskip == old(self).frameskip,
                self.step_count == old(self).step_count,
                old(self).step_count < usize::MAX,
                start == old(self).console.spec_set_action(action_at(action)),
                states.len() == i + 1,
                states[0] == start,
                states[i as int] == self.console,
                frame_chain(states),
            decreases self.frameskip - i,
        {
            let ghost before = self.console;
            match self.console.run_frame() {
                Some(t) => {
                    proof {
                        assert(frame_ran(before, self.console, t));
                        assert(frame_step(before, self.console));
                        let next = states.push(self.console);
                        assert forall|k: int| 0 <= k < next.len() - 1 implies #[trigger] frame_step(
                            next[k],
                            next[k + 1],
                        ) by {
                            if k < i {
                                assert(next[k] == states[k] && next[k + 1] == states[k + 1]);
                            }
                        }
                        states = next;
                    }
                },
                None => {
                    proof {
                        assert(frames_ran(start, before, i as nat));
                        let (k1, k) = choose|k1: nat, k: nat| #[trigger] frame_halts(before, k1, k);
                        assert(frame_halts(before, k1, k));
                    }
                    return None;
                },
            }
            i = i + 1;
        }
        assert(frames_ran(start, self.console, self.frameskip as nat));
        self.step_count = self.step_count + 1;
        let truncated = self.max_steps > 0 && self.step_count >= self.max_steps;
        Some(truncated)
    }
}

/// Atari 2600 environment with RAM-only observations (no rendering).
pub struct HeadlessAtariEnv {
    pub console: HeadlessAtari,
    pub rom: Vec<u8>,
    pub step_count: usize,
    pub max_steps: usize,
    pub frameskip: usize,
}

impl HeadlessAtariEnv {
    /// Create a new headless environment from a ROM binary.
    pub fn new(rom: Vec<u8>) -> (r: Self)
        requires
            headless_rom_ok(rom@.len() as int),
        ensures
            (r.console.cpu, r.console.bus.view()) == HeadlessAtari::spec_new(rom@),
            r.rom@ == rom@,
            r.step_count == 0,
            r.max_steps == DEFAULT_MAX_STEPS,
            r.frameskip == DEFAULT_FRAMESKIP,
    {
        HeadlessAtariEnv {
            console: HeadlessAtari::new(copy_rom(&rom)),
            rom,
            step_count: 0,
            max_steps: DEFAULT_MAX_STEPS,
            frameskip: DEFAULT_FRAMESKIP,
        }
    }

    /// Set maximum steps per episode (0 = unlimited).
    pub fn with_max_steps(self, max_steps: usize) -> (r: Self)
        ensures
            r == (HeadlessAtariEnv { max_steps, ..self }),
    {
        let mut s = self;
        s.max_steps = max_steps;
        s
    }

    /// Set number of frames to skip per step (action repeat).
    pub fn with_frameskip(self, frameskip: usize) -> (r: Self)
        ensures
            r == (HeadlessAtariEnv { frameskip, ..self }),
    {
        let mut s = self;
        s.frameskip = frameskip;
        s
    }

    /// Access the raw 128-byte PIA RAM.
    pub fn ram(&self) -> (r: &[u8; 128])
        requires
            self.console.wf(),
        ensures
            r@ == self.console.bus.view().mem.subrange(0x80, 0x100),
    {
        proof {
            assert(self.console.bus.pia.ram@ =~= self.console.bus.view().mem.subrange(0x80, 0x100))
                by {
                assert forall|i: int| 0 <= i < 128 implies self.console.bus.pia.ram@[i]
                    == self.console.bus.view().mem[0x80 + i] by {
                    assert(self.console.bus.view().mem[0x80 + i] == self.console.bus.pia.ram[i]);
                }
            }
        }
        &self.console.bus.pia.ram
    }

    /// Start a new episode: a fresh console for the ROM, the step count
    /// cleared, and one frame run. Returns the frame's cycles; `None` where
    /// the frame stops on an instruction the CPU does not implement.
    pub fn reset(&mut self) -> (r: Option<u64>)
        requires
            headless_rom_ok(old(self).rom@.len() as int),
        ensures
            final(self).rom == old(self).rom,
            final(self).step_count == 0,
            final(self).max_steps == old(self).max_steps,
            final(self).frameskip == old(self).frameskip,
            final(self).console.wf(),
            r is Some ==> ({
                let (c0, m0) = HeadlessAtari::spec_new(old(self).rom@);
                headless_frame_ran(
                    c0,
                    m0.frame_start(),
                    final(self).console.cpu,
                    final(self).console.bus.view(),
                    r->0,
                )
            }),
            r is None ==> ({
                let (c0, m0) = HeadlessAtari::spec_new(old(self).rom@);
                exists|k1: nat, k: nat| #[trigger] headless_frame_halts(c0, m0.frame_start(), k1, k)
            }),
    {
        self.console = HeadlessAtari::new(copy_rom(&self.rom));
        self.step_count = 0;
        let ghost c0 = self.console.cpu;
        let ghost m0 = self.console.bus.view();
        proof {
            assert((c0, m0) == HeadlessAtari::spec_new(old(self).rom@));
        }
        let r = self.console.run_frame();
        proof {
            if r is None {
                assert(exists|k1: nat, k: nat| #[trigger] headless_frame_halts(c0, m0.frame_start(), k1, k));
                let (c1, m1) = HeadlessAtari::spec_new(old(self).rom@);
                assert(c1 == c0 && m1 == m0);
            }
        }
        r
    }

    /// Apply action number `action` and run `frameskip` frames; count the
    /// step. Returns whether the episode is truncated by the step limit;
    /// `None` where a frame stops on an instruction the CPU does not implement.
    pub fn step(&mut self, action: usize) -> (r: Option<bool>)
        requires
            old(self).console.wf(),
            old(self).step_count < usize::MAX,
        ensures
            final(self).console.wf(),
            final(self).rom == old(self).rom,
            final(self).max_steps == old(self).max_steps,
            final(self).frameskip == old(self).frameskip,
            r is Some ==> {
                &&& final(self).step_count == old(self).step_count + 1
                &&& r->0 == truncated_at(old(self).max_steps, final(self).step_count)
                &&& exists|c: Cpu, m: HeadlessState|
                    #[trigger] headless_frames_ran(
                        c,
                        m,
                        final(self).console.cpu,
                        final(self).console.bus.view(),
                        old(self).frameskip as nat,
                    ) && c == old(self).console.cpu && m == headless_with_action(
                        old(self).console.bus.view(),
                        action_at(action),
                    )
            },
            r is None ==> exists|i: nat, c: Cpu, m: HeadlessState, k1: nat, k: nat|
                i < old(self).frameskip && #[trigger] headless_frames_ran(
                    old(self).console.cpu,
                    headless_with_action(old(self).console.bus.view(), action_at(action)),
                    c,
                    m,
                    i,
                ) && #[trigger] headless_frame_halts(c, m.frame_start(), k1, k),
    {
        let act = Action::from_index(action);
        self.console.set_action(act);
        let ghost c0 = self.console.cpu;
        let ghost m0 = self.console.bus.view();
        let ghost mut states: Seq<(Cpu, HeadlessState)> = seq![(c0, m0)];
        let mut i: usize = 0;
        while i < self.frameskip
            invariant
                i <= self.frameskip,
                self.console.wf(),
                self.rom == old(self).rom,
                self.max_steps == old(self).max_steps,
                self.frameskip == old(self).frameskip,
                self.step_count == old(self).step_count,
                old(self).step_count < usize::MAX,
                c0 == old(self).console.cpu,
                m0 == headless_with_action(old(self).console.bus.view(), action_at(action)),
                states.len() == i + 1,
                states[0] == (c0, m0),
                states[i as int] == (self.console.cpu, self.console.bus.view()),
                headless_frame_chain(states),
            decreases self.frameskip - i,
        {
            let ghost cb = self.console.cpu;
            let ghost mb = self.console.bus.view();
            match self.console.run_frame() {
                Some(t) => {
                    proof {
                        assert(headless_frame_ran(cb, mb.frame_start(), self.console.cpu, self.console.bus.view(), t));
                        assert(headless_frame_step(cb, mb, self.console.cpu, self.console.bus.view()));
                        let next = states.push((self.console.cpu, self.console.bus.view()));
                        assert forall|k: int| 0 <= k < next.len() - 1 implies #[trigger] headless_frame_step(
                            next[k].0,
                            next[k].1,
                            next[k + 1].0,
                            next[k + 1].1,
                        ) by {
                            if k < i {
                                assert(next[k] == states[k] && next[k + 1] == states[k + 1]);
                            }
                        }
                        states = next;
                    }
                },
                None => {
                    proof {
                        assert(headless_frames_ran(c0, m0, cb, mb, i as nat));
                        let (k1, k) = choose|k1: nat, k: nat| #[trigger] headless_frame_halts(cb, mb.frame_start(), k1, k);
                        assert(headless_frame_halts(cb, mb.frame_start(), k1, k));
                    }
                    return None;
                },
            }
            i = i + 1;
        }
        assert(headless_frames_ran(c0, m0, self.console.cpu, self.console.bus.view(), self.frameskip as nat));
        self.step_count = self.step_count + 1;
        let truncated = self.max_steps > 0 && self.step_count >= self.max_steps;
        Some(truncated)
    }
}

} // verus!
