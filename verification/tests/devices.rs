use fast_atari_rs::cpu::{Status, CARRY, DECIMAL, NEGATIVE, ZERO};
use fast_atari_rs::headless_tia::HeadlessTia;
use fast_atari_rs::pia::Pia;
use fast_atari_rs::tia::{Tia, FRAME_PIXELS};

#[test]
fn status_push_pull_round_trip() {
    let s = Status(CARRY | NEGATIVE);
    let pushed = s.to_byte_with_break();
    assert_eq!(pushed, CARRY | NEGATIVE | 0x30);
    assert_eq!(Status::from_byte(pushed).0, s.0);
    let mut t = Status(0);
    t.set(DECIMAL, true);
    assert!(t.get(DECIMAL));
    t.set(DECIMAL, false);
    assert!(!t.get(DECIMAL));
    t.set_zn(0);
    assert!(t.get(ZERO));
    assert!(!t.get(NEGATIVE));
    t.set_zn(0x80);
    assert!(!t.get(ZERO));
    assert!(t.get(NEGATIVE));
}

#[test]
fn pia_timer_counts_down() {
    let mut p = Pia::new();
    p.write(0x0294, 3); // TIM1T = 3
    assert_eq!(p.read(0x0284), 3);
    p.tick();
    assert_eq!(p.read(0x0284), 2);
    p.tick();
    p.tick();
    assert_eq!(p.read(0x0284), 0);
    assert_eq!(p.read(0x0285), 0x00);
    p.tick();
    // underflow: wraps to $FF with the interrupt flag set
    assert_eq!(p.read(0x0285), 0x80);
    assert_eq!(p.read(0x0284), 0xFF);
    // reading INTIM cleared the flag
    assert_eq!(p.read(0x0285), 0x00);
}

#[test]
fn pia_tick_n_matches_single_ticks() {
    for (interval_reg, start) in [(0x0294u16, 100u8), (0x0295, 10), (0x0296, 5)] {
        let mut a = Pia::new();
        let mut b = Pia::new();
        a.write(interval_reg, start);
        b.write(interval_reg, start);
        for n in [1u16, 3, 7, 20] {
            a.tick_n(n);
            for _ in 0..n {
                b.tick();
            }
            assert_eq!(a.timer_value, b.timer_value);
            assert_eq!(a.timer_underflow, b.timer_underflow);
            assert_eq!(a.timer_prescaler, b.timer_prescaler);
        }
    }
}

#[test]
fn pia_tick_n_matches_single_ticks_through_underflow() {
    // Reaching zero inside a batch: the batch still equals single ticks.
    for (interval_reg, start) in [(0x0294u16, 2u8), (0x0294, 0), (0x0295, 1), (0x0296, 0)] {
        for n in [1u16, 2, 3, 9, 65, 76, 300] {
            let mut a = Pia::new();
            let mut b = Pia::new();
            a.write(interval_reg, start);
            b.write(interval_reg, start);
            a.tick_n(n);
            for _ in 0..n {
                b.tick();
            }
            assert_eq!(a.timer_value, b.timer_value);
            assert_eq!(a.timer_underflow, b.timer_underflow);
            assert_eq!(a.timer_prescaler, b.timer_prescaler);
            // and on in post-underflow mode
            a.tick_n(5);
            for _ in 0..5 {
                b.tick();
            }
            assert_eq!(a.timer_value, b.timer_value);
            assert_eq!(a.timer_prescaler, b.timer_prescaler);
        }
    }
}

#[test]
fn pia_tick_n_underflow_reads() {
    let mut p = Pia::new();
    p.write(0x0294, 0);
    p.tick_n(2);
    assert_eq!(p.read(0x0285), 0x80);
    assert_eq!(p.read(0x0284), 0xFE);
    let mut q = Pia::new();
    q.write(0x0294, 2);
    q.tick_n(2);
    assert_eq!(q.timer_value, 0);
    assert!(!q.timer_underflow);
}

#[test]
fn pia_ram_and_ports() {
    let mut p = Pia::new();
    p.write(0x0080, 0x12);
    p.write(0x00FF, 0x34);
    assert_eq!(p.read(0x0080), 0x12);
    assert_eq!(p.read(0x00FF), 0x34);
    p.set_port_a_input(0x5F);
    assert_eq!(p.read(0x0280), 0x5F);
    p.write(0x0281, 0xF0); // upper nibble output
    p.write(0x0280, 0xA0);
    assert_eq!(p.read(0x0280), 0xAF);
    p.set_port_b_input(0x0B);
    assert_eq!(p.read(0x0282), 0x0B);
}

#[test]
fn headless_tia_timing() {
    let mut t = HeadlessTia::new();
    assert_eq!(t.cycles_until_scanline_end(), 76);
    t.tick3();
    assert_eq!(t.clock, 3);
    t.tick_n(10);
    assert_eq!(t.clock, 33);
    assert_eq!(t.cycles_until_scanline_end(), 65);
    t.write(0x02, 0); // WSYNC
    assert!(t.wsync);
    assert_eq!(t.skip_to_scanline_end(), 65);
    assert_eq!(t.clock, 0);
    assert_eq!(t.scanline, 1);
    assert!(!t.wsync);
    // a full scanline of single cycles wraps once
    let mut u = HeadlessTia::new();
    let mut v = HeadlessTia::new();
    u.tick_n(76);
    for _ in 0..76 {
        v.tick3();
    }
    assert_eq!(u.clock, v.clock);
    assert_eq!(u.scanline, v.scanline);
}

#[test]
fn headless_tia_registers() {
    let mut t = HeadlessTia::new();
    t.set_input(0, false);
    assert_eq!(t.read(0x0C), 0x00);
    assert_eq!(t.read(0x0D), 0x80);
    t.set_paddle(1, 3);
    assert_eq!(t.paddle1, 3);
    t.write(0x1B, 0xAA); // GRP0
    t.write(0x1B, 0x55);
    assert_eq!(t.grp0, 0x55);
    assert_eq!(t.grp0_old, 0xAA);
    t.write(0x20, 0x10); // HMP0 = +1 (move left)
    t.pos_p0 = 0;
    t.write(0x2A, 0); // HMOVE
    assert_eq!(t.pos_p0, 159);
    t.write(0x01, 0x80); // VBLANK with paddle dump
    assert!(t.paddle_dumped);
    assert_eq!(t.paddle_counter, 0);
    t.write(0x00, 0x02); // VSYNC on
    assert!(t.frame_complete);
    assert_eq!(t.scanline, 0);
}

#[test]
fn tia_renders_background_and_playfield() {
    let mut t = Tia::new();
    assert_eq!(t.framebuffer.len(), FRAME_PIXELS);
    t.write(0x09, 0x44); // COLUBK
    t.write(0x08, 0x1E); // COLUPF
    t.write(0x0D, 0x10); // PF0 bit 4: leftmost 4 pixels
    // run one scanline of TIA clocks
    for _ in 0..228 {
        t.tick();
    }
    assert_eq!(t.framebuffer[0], 0x1E);
    assert_eq!(t.framebuffer[3], 0x1E);
    assert_eq!(t.framebuffer[4], 0x44);
    assert_eq!(t.render_line, 1);
    assert_eq!(t.read(0x06), 0); // no ball/playfield collision yet
}

#[test]
fn tia_vblank_off_clears_frame() {
    let mut t = Tia::new();
    t.write(0x09, 0x22);
    for _ in 0..228 {
        t.tick();
    }
    assert_eq!(t.framebuffer[10], 0x22);
    t.write(0x01, 0x02); // VBLANK on
    t.write(0x01, 0x00); // VBLANK off
    assert_eq!(t.render_line, 0);
    assert_eq!(t.framebuffer[10], 0);
}

#[test]
fn pia_counts_once_per_cycle_after_underflow() {
    let mut p = Pia::new();
    p.write(0x0296, 1); // TIM64T, value 1
    for _ in 0..128 {
        p.tick();
    }
    assert_eq!(p.timer_value, 0xFF);
    assert!(p.timer_underflow);
    p.tick();
    assert_eq!(p.read(0x0284), 0xFE);
    // the batched advance agrees
    let mut q = Pia::new();
    q.write(0x0296, 1);
    q.tick_n(129);
    assert_eq!(q.read(0x0284), 0xFE);
}
