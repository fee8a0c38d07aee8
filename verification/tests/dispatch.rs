use fast_atari_rs::cpu::{Cpu, FlatMemory};
use fast_atari_rs::cuda_env::{
    frame_kernel_name, grid_size, initial_states, multi_frame_kernel_name, sorted_variant,
    AtariStateGpu, KernelVariant,
};
use fast_atari_rs::atari::HeadlessAtari;
use fast_atari_rs::dispatch::{dispatch_table, Handler};
use fast_atari_rs::rom_compiler::{AddrMode, Op};

fn machine(code: &[u8]) -> (Cpu, FlatMemory) {
    let mut mem = FlatMemory::new();
    mem.load(0x8000, code);
    mem.ram[0xFFFC] = 0x00;
    mem.ram[0xFFFD] = 0x80;
    let mut cpu = Cpu::new();
    cpu.reset(&mut mem);
    (cpu, mem)
}

#[test]
fn dispatch_table_entries() {
    let t = dispatch_table();
    assert_eq!(t[0xA9], Handler::Straight(Op::Lda, AddrMode::Immediate));
    assert_eq!(t[0x9D], Handler::Straight(Op::Sta, AddrMode::AbsoluteX));
    assert_eq!(t[0xF0], Handler::Branch(0xF0));
    assert_eq!(t[0x4C], Handler::JmpAbs);
    assert_eq!(t[0x6C], Handler::JmpInd);
    assert_eq!(t[0x20], Handler::Jsr);
    assert_eq!(t[0x60], Handler::Rts);
    assert_eq!(t[0x40], Handler::Rti);
    assert_eq!(t[0x00], Handler::Brk);
    assert_eq!(t[0x02], Handler::Illegal);
    let legal = t.iter().filter(|h| **h != Handler::Illegal).count();
    assert_eq!(legal, 151);
}

/// Run a program with the dispatch table and with `Cpu::step` side by side.
fn compare(code: &[u8], steps: usize) {
    let (mut c1, mut m1) = machine(code);
    let (mut c2, mut m2) = machine(code);
    let t = dispatch_table();
    for _ in 0..steps {
        let op = m1.ram[c1.pc as usize];
        let d = t[op as usize].run(&mut c1, &mut m1);
        let s = c2.step(&mut m2);
        assert_eq!(d, s, "cycles of opcode {op:#04x}");
        assert_eq!((c1.a, c1.x, c1.y, c1.sp, c1.pc, c1.status.0), (c2.a, c2.x, c2.y, c2.sp, c2.pc, c2.status.0));
        assert_eq!(m1.ram, m2.ram);
    }
}

#[test]
fn dispatch_matches_step_on_ram() {
    compare(&[0xA2, 0x05, 0xA9, 0x80, 0x9D, 0x00, 0x02, 0xFE, 0x00, 0x02, 0xBD, 0xFF, 0x01, 0x69, 0x7F, 0xE9, 0x03, 0xC9, 0x10], 9);
    // stack and subroutine: JSR $8010 ; ... ; $8010: PHA PHP PLA PLP RTS
    let mut code = vec![0x20, 0x10, 0x80, 0xEA, 0xEA];
    code.resize(0x10, 0xEA);
    code.extend_from_slice(&[0x48, 0x08, 0x68, 0x28, 0x60]);
    compare(&code, 7);
    // branches: LDX #3 ; DEX ; BNE -3 ; SEC ; BCS +0
    compare(&[0xA2, 0x03, 0xCA, 0xD0, 0xFD, 0x38, 0xB0, 0x00], 9);
    // decimal mode arithmetic
    compare(&[0xF8, 0xA9, 0x19, 0x69, 0x28, 0xE9, 0x09, 0xD8], 4);
}

#[test]
fn gpu_state_of_headless_console() {
    let mut rom = vec![0xEA; 4096];
    rom[0x0FFC] = 0x00;
    rom[0x0FFD] = 0xF0;
    let h = HeadlessAtari::new(rom.clone());
    let st = AtariStateGpu::from_headless(&h);
    assert_eq!(st.pc, 0xF000);
    assert_eq!(st.sp, 0xFD);
    assert_eq!(st.inpt4, 1);
    assert_eq!(st.scheme, 0);
    assert_eq!(st.timer_prescaler, 1);
    assert_eq!(st.ram, [0u8; 128]);
    assert_eq!(grid_size(1), 1);
    assert_eq!(grid_size(128), 1);
    assert_eq!(grid_size(129), 2);
    assert_eq!(sorted_variant(true), KernelVariant::Sorted);
    assert_eq!(sorted_variant(false), KernelVariant::Default);
    assert_eq!(frame_kernel_name(KernelVariant::Ldg), "atari_frame_kernel_ldg");
    assert_eq!(multi_frame_kernel_name(KernelVariant::Ldg), "atari_multi_frame_kernel");
}

#[test]
fn initial_batch_states() {
    let mut rom = vec![0xEA; 4096];
    // LDA #2 ; STA VSYNC ; LDA #0 ; STA VSYNC ; STA WSYNC ; JMP $F000
    let code = [0xA9, 0x02, 0x85, 0x00, 0xA9, 0x00, 0x85, 0x00, 0x85, 0x02, 0x4C, 0x00, 0xF0];
    rom[..code.len()].copy_from_slice(&code);
    rom[0x0FFC] = 0x00;
    rom[0x0FFD] = 0xF0;
    let (obs, states) = initial_states(&rom, 3).expect("frames run");
    assert_eq!(obs.len(), 3);
    assert_eq!(states.len(), 3);
    assert_eq!(obs[0].len(), 128);
    assert_eq!(states[0].pc, states[2].pc);
}
