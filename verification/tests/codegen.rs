use fast_atari_rs::atari::BankScheme;
use fast_atari_rs::codegen::{emit_block, emittable_block};
use fast_atari_rs::headless_tia::HeadlessTia;
use fast_atari_rs::kernel::{
    generate_compiled_source, strip_includes, KernelHeaders, ACTION_DISPATCH, CPU_6502_AOT_BANNER,
    CPU_6502_BANNER, DECODED_OP_BANNER, DISPATCHER_HEAD, DISPATCHER_TAIL, FRAME_RUNNER,
    KERNEL_ENTRIES, KERNEL_PREAMBLE, MEMORY_BUS_BANNER, PIA_BANNER, STATE_LAYOUT_BANNER,
    TIA_HEADLESS_BANNER,
};
use fast_atari_rs::rom_compiler::{discover_blocks, BasicBlock, DecodedInstr, ExitType};
use fast_atari_rs::tia::Tia;

fn instr(pc: u16, opcode: u8, operand: u16, size: u8, cycles: u8) -> DecodedInstr {
    DecodedInstr { pc, opcode, operand, size, cycles }
}

/// LDA #$05; STA WSYNC
fn wsync_block(start_pc: u16) -> BasicBlock {
    BasicBlock {
        start_pc,
        bank: 0,
        instructions: vec![
            instr(start_pc, 0xA9, 0x05, 2, 2),
            instr(start_pc.wrapping_add(2), 0x85, 0x02, 2, 3),
        ],
        exit_type: ExitType::Wsync { next_pc: start_pc.wrapping_add(4) },
    }
}

#[test]
fn emit_block_wsync_exact() {
    let text = emit_block(&wsync_block(0xF000));
    let expected = "    case 0x0000: {\n\
        \x20       c->a = 0x05; set_zn(&c->status, c->a);\n\
        \x20       tia_tick_n(c, 2); pia_tick_n(c, (uint16_t)2); *cycles += 2;\n\
        \x20       BW(0x0002, c->a);\n\
        \x20       tia_tick_n(c, 3); pia_tick_n(c, (uint16_t)3); *cycles += 3;\n\
        \x20       c->pc = 0xF004; break;\n\
        \x20   }\n";
    assert_eq!(text, expected);
}

#[test]
fn emit_block_branch_exact() {
    // BNE +2 at $F010 in bank 1
    let block = BasicBlock {
        start_pc: 0xF010,
        bank: 1,
        instructions: vec![instr(0xF010, 0xD0, 0x02, 2, 2)],
        exit_type: ExitType::Branch { taken_pc: 0xF014, not_taken_pc: 0xF012 },
    };
    let expected = "    case 0x1010: {\n\
        \x20       if (!get_flag(c->status, FLAG_ZERO)) {\n\
        \x20           tia_tick_n(c, 3); pia_tick_n(c, (uint16_t)3); *cycles += 3;\n\
        \x20           c->pc = 0xF014; break;\n\
        \x20       }\n\
        \x20       tia_tick_n(c, 2); pia_tick_n(c, (uint16_t)2); *cycles += 2;\n\
        \x20       c->pc = 0xF012; break;\n\
        \x20   }\n";
    assert_eq!(emit_block(&block), expected);
}

#[test]
fn emit_block_branch_page_cross_and_indexed_penalty() {
    // LDA $10FF,X (page-cross penalty) then BEQ across a page
    let block = BasicBlock {
        start_pc: 0xF0FB,
        bank: 0,
        instructions: vec![instr(0xF0FB, 0xBD, 0x10FF, 3, 4), instr(0xF0FE, 0xF0, 0xF0, 2, 2)],
        exit_type: ExitType::Branch { taken_pc: 0xF0F0, not_taken_pc: 0xF100 },
    };
    let text = emit_block(&block);
    assert!(text.starts_with("    case 0x00FB: {\n"));
    assert!(text.contains("        c->a = BR((uint16_t)(0x10FF + c->x)); set_zn(&c->status, c->a);\n"));
    assert!(text.contains("tia_tick_n(c, 4 + _p); pia_tick_n(c, (uint16_t)(4 + _p)); *cycles += 4 + _p; }\n"));
    assert!(text.contains("        if (get_flag(c->status, FLAG_ZERO)) {\n"));
    // taken across a page: base 2 + 1 + 1
    assert!(text.contains("            tia_tick_n(c, 4); pia_tick_n(c, (uint16_t)4); *cycles += 4;\n"));
    assert!(text.ends_with("        c->pc = 0xF100; break;\n    }\n"));
}

#[test]
fn strip_includes_drops_include_lines() {
    let src = "#include \"a.h\"\r\nint x;\r\n  \t#include <b.h>\nint y;\n";
    assert_eq!(strip_includes(src), "int x;\nint y;");
}

#[test]
fn strip_includes_edge_cases() {
    assert_eq!(strip_includes(""), "");
    assert_eq!(strip_includes("\n"), "");
    assert_eq!(strip_includes("a\n\nb"), "a\n\nb");
    assert_eq!(strip_includes("a\r"), "a\r");
    assert_eq!(strip_includes("#includes\nx"), "x");
    assert_eq!(strip_includes("# include <c>\n"), "# include <c>");
    assert_eq!(strip_includes("\u{3000}#include <d>\nz\r\n"), "z");
    assert_eq!(strip_includes("#include <only>"), "");
}

fn headers() -> KernelHeaders {
    KernelHeaders {
        state_layout: "#include <stdint.h>\nSTATE".to_string(),
        tia_headless: "TIA\n".to_string(),
        pia: "PIA".to_string(),
        memory_bus: "  #include \"pia.cuh\"\nBUS".to_string(),
        cpu_6502: "CPU".to_string(),
        decoded_op: "OP".to_string(),
        cpu_6502_aot: "AOT".to_string(),
    }
}

#[test]
fn compiled_source_exact_and_deduplicated() {
    // $1000 and $F000 in bank 0 share one ROM offset
    let a = wsync_block(0xF000);
    let b = wsync_block(0x1000);
    let src = generate_compiled_source(&[a, b], &[0u8; 4096], BankScheme::Fixed, &headers());
    let mut expected = String::new();
    expected.push_str(KERNEL_PREAMBLE);
    for (banner, text) in [
        (STATE_LAYOUT_BANNER, "STATE"),
        (TIA_HEADLESS_BANNER, "TIA"),
        (PIA_BANNER, "PIA"),
        (MEMORY_BUS_BANNER, "BUS"),
        (CPU_6502_BANNER, "CPU"),
        (DECODED_OP_BANNER, "OP"),
        (CPU_6502_AOT_BANNER, "AOT"),
    ] {
        expected.push_str(banner);
        expected.push_str(text);
        expected.push('\n');
    }
    expected.push_str(ACTION_DISPATCH);
    expected.push_str("// === Compiled block dispatcher (1 unique blocks) ===\n");
    expected.push_str(DISPATCHER_HEAD);
    expected.push_str(&emit_block(&wsync_block(0xF000)));
    expected.push_str(DISPATCHER_TAIL);
    expected.push_str(FRAME_RUNNER);
    expected.push_str(KERNEL_ENTRIES);
    assert_eq!(src, expected);
    assert_eq!(src.matches("    case 0x0000: {").count(), 1);
    assert!(!src.contains("#include"));
}

#[test]
fn compiled_source_keeps_distinct_blocks_in_order() {
    let blocks = [wsync_block(0xF800), wsync_block(0xF000), wsync_block(0x1800)];
    let src = generate_compiled_source(&blocks, &[], BankScheme::Fixed, &headers());
    assert!(src.contains("(2 unique blocks)"));
    let first = src.find("    case 0x0800: {").unwrap();
    let second = src.find("    case 0x0000: {").unwrap();
    assert!(first < second);
    assert_eq!(src.matches("    case 0x0800: {").count(), 1);
    assert!(src.contains("void run_compiled_block(ThreadCtx* c, uint8_t* mr, uint64_t* cycles,\n"));
    assert!(src.contains("void atari_multi_frame_kernel_compiled("));
}

#[test]
fn rendering_tia_keeps_headless_timing() {
    let mut t = Tia::new();
    let mut h = HeadlessTia::new();
    for cycle in 0..(76 * 300) {
        if cycle % 997 == 5 {
            t.write(0x02, 0);
            h.write(0x02, 0);
        }
        t.tick();
        t.tick();
        t.tick();
        h.tick3();
        assert_eq!(t.core.clock, h.clock);
        assert_eq!(t.core.scanline, h.scanline);
        assert_eq!(t.core.wsync, h.wsync);
        assert_eq!(t.core.frame_complete, h.frame_complete);
        assert_eq!(t.core.paddle_counter, h.paddle_counter);
    }
}

#[test]
fn emittable_blocks() {
    assert!(emittable_block(&wsync_block(0xF000)));
    let empty_jump = BasicBlock {
        start_pc: 0xF000,
        bank: 0,
        instructions: vec![],
        exit_type: ExitType::JmpAbs { target: 0xF000 },
    };
    assert!(!emittable_block(&empty_jump));
    let not_a_branch = BasicBlock {
        start_pc: 0xF000,
        bank: 0,
        instructions: vec![instr(0xF000, 0xEA, 0, 1, 2)],
        exit_type: ExitType::Branch { taken_pc: 0xF000, not_taken_pc: 0xF001 },
    };
    assert!(!emittable_block(&not_a_branch));
}

#[test]
fn discovered_blocks_compile() {
    let mut rom = vec![0xEA; 4096];
    rom[0x0FFC] = 0x00;
    rom[0x0FFD] = 0xF0;
    // LDA #$42; STA WSYNC; BNE -6
    rom[0x0000] = 0xA9;
    rom[0x0001] = 0x42;
    rom[0x0002] = 0x85;
    rom[0x0003] = 0x02;
    rom[0x0004] = 0xD0;
    rom[0x0005] = 0xFA;
    let blocks = discover_blocks(&rom, BankScheme::Fixed);
    assert!(blocks.iter().all(emittable_block));
    let src = generate_compiled_source(&blocks, &rom, BankScheme::Fixed, &headers());
    assert!(src.contains("    case 0x0000: {\n"));
    assert!(src.contains("    case 0x0004: {\n        if (!get_flag(c->status, FLAG_ZERO)) {\n"));
}
