use fast_atari_rs::atari::{
    ntsc_palette, Action, Atari, BankScheme, HeadlessAtari, ACTION_COUNT, PALETTE,
};
use fast_atari_rs::cpu::Memory;
use fast_atari_rs::rl4burn_env::{AtariEnv, HeadlessAtariEnv, DEFAULT_FRAMESKIP, DEFAULT_MAX_STEPS};

/// 4K ROM: SEI; then a loop that writes VSYNC on, 3 WSYNCs, VSYNC off,
/// a few WSYNC lines, and jumps back.
fn frame_rom() -> Vec<u8> {
    let mut rom = vec![0xEA; 4096];
    let code: [u8; 24] = [
        0x78, // $F000 SEI
        0xA9, 0x02, // $F001 LDA #$02
        0x85, 0x00, // $F003 STA VSYNC (on)
        0x85, 0x02, // $F005 STA WSYNC
        0x85, 0x02, // $F007 STA WSYNC
        0x85, 0x02, // $F009 STA WSYNC
        0xA9, 0x00, // $F00B LDA #$00
        0x85, 0x00, // $F00D STA VSYNC (off)
        0xE6, 0x80, // $F00F INC $80
        0x85, 0x02, // $F011 STA WSYNC
        0x4C, 0x01, 0xF0, // $F013 JMP $F001
        0xEA, 0xEA,
    ];
    rom[..code.len()].copy_from_slice(&code);
    rom[0x0FFC] = 0x00;
    rom[0x0FFD] = 0xF0;
    rom
}

#[test]
fn bank_scheme_detection() {
    assert_eq!(BankScheme::detect(2048), BankScheme::Fixed);
    assert_eq!(BankScheme::detect(4096), BankScheme::Fixed);
    assert_eq!(BankScheme::detect(4097), BankScheme::F8);
    assert_eq!(BankScheme::detect(8192), BankScheme::F8);
    assert_eq!(BankScheme::detect(16384), BankScheme::F6);
    assert_eq!(BankScheme::detect(32768), BankScheme::F4);
}

#[test]
fn action_indices_and_decoding() {
    assert_eq!(Action::from_index(0), Action::Noop);
    assert_eq!(Action::from_index(1), Action::Fire);
    assert_eq!(Action::from_index(6), Action::UpRight);
    assert_eq!(Action::from_index(17), Action::DownLeftFire);
    assert_eq!(Action::from_index(18), Action::Noop);
    assert_eq!(Action::from_index(1000), Action::Noop);
    assert_eq!(Action::UpLeftFire.decode(), (true, false, true, false, true));
    assert_eq!(Action::DownRight.decode(), (false, true, false, true, false));
    for i in 0..ACTION_COUNT {
        let (up, down, left, right, _) = Action::from_index(i).decode();
        assert!(!(up && down));
        assert!(!(left && right));
    }
}

#[test]
fn palette_lookup() {
    assert_eq!(ntsc_palette(0), (0, 0, 0));
    assert_eq!(ntsc_palette(1), (0, 0, 0));
    assert_eq!(ntsc_palette(2), (0, 0, 0));
    assert_eq!(ntsc_palette(4), (68, 68, 0));
    assert_eq!(ntsc_palette(0x0E), (132, 24, 0));
    assert_eq!(ntsc_palette(0xFF), PALETTE[127]);
    assert_eq!(ntsc_palette(0xFE), (0, 116, 0));
}

#[test]
fn console_starts_at_reset_vector() {
    let atari = Atari::new(frame_rom());
    assert_eq!(atari.cpu.pc, 0xF000);
    assert_eq!(atari.cpu.sp, 0xFD);
    assert_eq!(atari.bus.bank, 0);
    assert_eq!(atari.bus.scheme, BankScheme::Fixed);
}

#[test]
fn console_runs_frames() {
    let mut atari = Atari::new(frame_rom());
    let c1 = atari.run_frame().expect("first frame");
    assert!(c1 > 0);
    // the frame ends when VSYNC comes on again
    assert_eq!(atari.bus.tia.core.vsync & 0x02, 0x02);
    let c2 = atari.run_frame().expect("second frame");
    assert!(c2 > 0);
    assert_eq!(atari.bus.tia.core.vsync & 0x02, 0x02);
    let obs = atari.observation();
    assert_eq!(obs.len(), 160 * 192);
    let rgba = atari.render();
    assert_eq!(rgba.len(), 160 * 192 * 4);
    assert_eq!(rgba[3], 255);
    assert_eq!(atari.action_space(), 18);
    assert_eq!(atari.observation_shape(), (192, 160, 1));
}

#[test]
fn console_stops_on_illegal_opcode() {
    let mut rom = vec![0x02; 4096]; // an opcode the CPU does not execute
    rom[0x0FFC] = 0x00;
    rom[0x0FFD] = 0xF0;
    let mut atari = Atari::new(rom);
    assert_eq!(atari.run_frame(), None);
}

#[test]
fn set_action_drives_inputs() {
    let mut atari = Atari::new(frame_rom());
    atari.set_action(Action::UpLeftFire);
    assert_eq!(atari.bus.pia.port_a_input, 0xFF & !0x10 & !0x40);
    assert!(!atari.bus.tia.core.inpt4);
    assert_eq!(atari.bus.tia.core.paddle0, 200);
    atari.set_action(Action::Right);
    assert_eq!(atari.bus.pia.port_a_input, 0x7F);
    assert!(atari.bus.tia.core.inpt4);
    assert_eq!(atari.bus.tia.core.paddle0, 50);
    atari.set_action(Action::Noop);
    assert_eq!(atari.bus.pia.port_a_input, 0xFF);
    assert_eq!(atari.bus.tia.core.paddle0, 128);
}

#[test]
fn bus_ram_read_after_write() {
    let mut atari = Atari::new(frame_rom());
    atari.bus.write(0x0085, 0x5A);
    assert_eq!(atari.bus.read(0x0085), 0x5A);
    // the stack page mirrors zero-page RAM
    assert_eq!(atari.bus.read(0x0185), 0x5A);
    atari.bus.write(0x01F0, 0xA5);
    assert_eq!(atari.bus.read(0x00F0), 0xA5);
    assert_eq!(atari.bus.read(0x0085), 0x5A);
}

#[test]
fn bankswitch_hotspots() {
    let mut rom = vec![0u8; 8192];
    rom[0x0000] = 0x11; // bank 0, offset 0
    rom[0x1000] = 0x22; // bank 1, offset 0
    rom[0x1FFC] = 0x00;
    rom[0x1FFD] = 0xF0;
    let mut atari = Atari::new(rom.clone());
    assert_eq!(atari.bus.scheme, BankScheme::F8);
    assert_eq!(atari.bus.bank, 1);
    assert_eq!(atari.bus.read(0xF000), 0x22);
    atari.bus.read(0xFFF8);
    assert_eq!(atari.bus.bank, 0);
    assert_eq!(atari.bus.read(0xF000), 0x11);
    atari.bus.write(0xFFF9, 0);
    assert_eq!(atari.bus.read(0xF000), 0x22);

    let mut headless = HeadlessAtari::new(rom);
    assert_eq!(headless.bus.bank, 1);
    assert_eq!(headless.bus.read(0xF000), 0x22);
    headless.bus.read(0xFFF8);
    assert_eq!(headless.bus.bank, 0);
    assert_eq!(headless.bus.read(0x1000), 0x11);
}

#[test]
fn headless_ram_mirrors() {
    let mut h = HeadlessAtari::new(frame_rom());
    h.bus.write(0x0091, 0x77);
    assert_eq!(h.bus.read(0x0091), 0x77);
    assert_eq!(h.bus.read(0x0191), 0x77);
    assert_eq!(h.bus.pia.ram[0x11], 0x77);
    assert_eq!(h.ram()[0x11], 0x77);
    h.bus.write(0x01A0, 0x12);
    assert_eq!(h.bus.read(0x00A0), 0x12);
}

#[test]
fn headless_runs_frames_and_counts() {
    let mut h = HeadlessAtari::new(frame_rom());
    let c = h.run_frame().expect("frame");
    assert!(c > 0);
    assert_eq!(h.bus.tia.vsync & 0x02, 0x02);
    let before = h.ram()[0];
    h.run_frame().expect("frame");
    // INC $80 runs once per loop pass
    assert_ne!(h.ram()[0], before);
}

#[test]
fn headless_and_full_console_agree_on_ram() {
    let mut a = Atari::new(frame_rom());
    let mut h = HeadlessAtari::new(frame_rom());
    for _ in 0..5 {
        a.run_frame().unwrap();
        h.run_frame().unwrap();
        assert_eq!(&a.bus.pia.ram[..], h.ram());
    }
}

#[test]
fn environments() {
    let mut env = AtariEnv::new(frame_rom()).with_max_steps(2).with_frameskip(1);
    assert_eq!(env.max_steps, 2);
    assert_eq!(env.frameskip, 1);
    assert!(env.reset().is_some());
    assert_eq!(env.step_count, 0);
    assert_eq!(env.step(1), Some(false));
    assert_eq!(env.step(0), Some(true));
    assert_eq!(env.framebuffer().len(), 160 * 192);

    let mut henv = HeadlessAtariEnv::new(frame_rom());
    assert_eq!(henv.max_steps, DEFAULT_MAX_STEPS);
    assert_eq!(henv.frameskip, DEFAULT_FRAMESKIP);
    assert!(henv.reset().is_some());
    assert_eq!(henv.step(3), Some(false));
    assert_eq!(henv.step_count, 1);
    assert_eq!(henv.ram().len(), 128);
    let unlimited = HeadlessAtariEnv::new(frame_rom()).with_max_steps(0);
    assert_eq!(unlimited.max_steps, 0);
}
