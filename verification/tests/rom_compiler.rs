use fast_atari_rs::atari::BankScheme;
use fast_atari_rs::rom_compiler::{
    block_summary, classify, discover_blocks, is_frame_sync_write, is_tia_position_write, is_vsync_write,
    is_wsync_write, static_write_addr, BasicBlock, DecodedInstr, ExitType,
};

#[test]
fn test_classify_covers_all_valid_opcodes() {
    let mut classified = 0;
    for opcode in 0..=255u8 {
        if classify(opcode).is_some() {
            classified += 1;
        }
    }
    // 56 base instructions with various addressing modes = ~151 opcodes
    // Plus branches, jumps, etc. handled separately
    assert!(classified >= 50, "Expected at least 50 classified opcodes, got {classified}");
}

#[test]
fn test_wsync_detection() {
    // STA $02 (ZP) — WSYNC
    assert!(is_wsync_write(0x85, 0x02));
    // STA $42 (ZP) — mirrors to WSYNC
    assert!(is_wsync_write(0x85, 0x42));
    // STA $0002 (ABS) — WSYNC
    assert!(is_wsync_write(0x8D, 0x0002));
    // STA $85 (ZP) — PIA RAM, not WSYNC
    assert!(!is_wsync_write(0x85, 0x85));
    // LDA $02 — not a store, not WSYNC
    assert!(!is_wsync_write(0xA5, 0x02));
    // STA $02,X — indexed, can't determine statically
    assert!(!is_wsync_write(0x95, 0x02));
}

#[test]
fn test_tia_position_detection() {
    // STA $10 — RESP0
    assert!(is_tia_position_write(0x85, 0x10));
    // STA $14 — RESBL
    assert!(is_tia_position_write(0x85, 0x14));
    // STA $0F — PF2, not position
    assert!(!is_tia_position_write(0x85, 0x0F));
    // STA $15 — AUDC0, not position
    assert!(!is_tia_position_write(0x85, 0x15));
}

#[test]
fn test_discover_blocks_simple() {
    // Minimal ROM: LDA #$00; STA $02 (WSYNC); JMP $F000
    // Place at offset $F00 within a 4K ROM
    let mut rom = vec![0xEA; 4096]; // fill with NOP
    // Reset vector → $F000
    rom[0x0FFC] = 0x00;
    rom[0x0FFD] = 0xF0;
    // $F000: LDA #$42
    rom[0x0000] = 0xA9;
    rom[0x0001] = 0x42;
    // $F002: STA $02 (WSYNC)
    rom[0x0002] = 0x85;
    rom[0x0003] = 0x02;
    // $F004: JMP $F000
    rom[0x0004] = 0x4C;
    rom[0x0005] = 0x00;
    rom[0x0006] = 0xF0;

    let blocks = discover_blocks(&rom, BankScheme::Fixed);
    assert!(!blocks.is_empty(), "Should discover at least one block");

    // Should have at least: [LDA #$42, STA $02] (WSYNC exit) and [JMP $F000]
    let wsync_blocks: Vec<_> = blocks
        .iter()
        .filter(|b| matches!(b.exit_type, ExitType::Wsync { .. }))
        .collect();
    assert!(!wsync_blocks.is_empty(), "Should have at least one WSYNC block");
}

fn simple_rom() -> Vec<u8> {
    let mut rom = vec![0xEA; 4096];
    rom[0x0FFC] = 0x00;
    rom[0x0FFD] = 0xF0;
    rom[0x0000] = 0xA9;
    rom[0x0001] = 0x42;
    rom[0x0002] = 0x85;
    rom[0x0003] = 0x02;
    rom[0x0004] = 0x4C;
    rom[0x0005] = 0x00;
    rom[0x0006] = 0xF0;
    rom
}

#[test]
fn discover_blocks_exact_shape() {
    let blocks = discover_blocks(&simple_rom(), BankScheme::Fixed);
    let first = blocks.iter().find(|b| b.start_pc == 0xF000).expect("reset block");
    assert_eq!(first.bank, 0);
    assert_eq!(first.instructions.len(), 2);
    assert_eq!(
        first.instructions[0],
        DecodedInstr { pc: 0xF000, opcode: 0xA9, operand: 0x42, size: 2, cycles: 2 }
    );
    assert_eq!(
        first.instructions[1],
        DecodedInstr { pc: 0xF002, opcode: 0x85, operand: 0x02, size: 2, cycles: 3 }
    );
    assert_eq!(first.exit_type, ExitType::Wsync { next_pc: 0xF004 });
    assert_eq!(first.base_cycles(), 5);
    let jmp = blocks.iter().find(|b| b.start_pc == 0xF004).expect("block after WSYNC");
    assert_eq!(jmp.exit_type, ExitType::JmpAbs { target: 0xF000 });
    assert_eq!(jmp.base_cycles(), 3);
    // listed by block identifier
    for w in blocks.windows(2) {
        assert!(w[0].block_id() <= w[1].block_id());
    }
}

#[test]
fn discover_blocks_branches_and_subroutines() {
    let mut rom = vec![0xEA; 4096];
    rom[0x0FFC] = 0x00;
    rom[0x0FFD] = 0xF0;
    // $F000: BNE +2 ; $F002: JSR $F010 ; $F005: RTS ; $F010: RTI
    rom[0x0000] = 0xD0;
    rom[0x0001] = 0x02;
    rom[0x0002] = 0x20;
    rom[0x0003] = 0x10;
    rom[0x0004] = 0xF0;
    rom[0x0005] = 0x60;
    rom[0x0010] = 0x40;
    let blocks = discover_blocks(&rom, BankScheme::Fixed);
    let b0 = blocks.iter().find(|b| b.start_pc == 0xF000).unwrap();
    assert_eq!(b0.exit_type, ExitType::Branch { taken_pc: 0xF004, not_taken_pc: 0xF002 });
    let b1 = blocks.iter().find(|b| b.start_pc == 0xF002).unwrap();
    assert_eq!(b1.exit_type, ExitType::Jsr { target: 0xF010, return_pc: 0xF005 });
    let b2 = blocks.iter().find(|b| b.start_pc == 0xF005).unwrap();
    assert_eq!(b2.exit_type, ExitType::Rts);
    let b3 = blocks.iter().find(|b| b.start_pc == 0xF010).unwrap();
    assert_eq!(b3.exit_type, ExitType::Rti);
    // the branch target lands in the middle of the JSR: its own block
    let b4 = blocks.iter().find(|b| b.start_pc == 0xF004).unwrap();
    assert_eq!(b4.instructions[0].opcode, 0xF0);
}

#[test]
fn position_write_is_its_own_block() {
    let mut rom = vec![0xEA; 4096];
    rom[0x0FFC] = 0x00;
    rom[0x0FFD] = 0xF0;
    // $F000: NOP ; $F001: STA RESP0 ; $F003: JMP $F000
    rom[0x0001] = 0x85;
    rom[0x0002] = 0x10;
    rom[0x0003] = 0x4C;
    rom[0x0004] = 0x00;
    rom[0x0005] = 0xF0;
    let blocks = discover_blocks(&rom, BankScheme::Fixed);
    let pos: &BasicBlock = blocks.iter().find(|b| b.start_pc == 0xF001).unwrap();
    assert_eq!(pos.instructions.len(), 1);
    assert_eq!(pos.exit_type, ExitType::Fallthrough { next_pc: 0xF003 });
    let head = blocks.iter().find(|b| b.start_pc == 0xF000).unwrap();
    assert_eq!(head.exit_type, ExitType::Fallthrough { next_pc: 0xF001 });
}

#[test]
fn store_classification() {
    assert_eq!(static_write_addr(0x85, 0x1234), Some(0x34));
    assert_eq!(static_write_addr(0x8D, 0x1234), Some(0x1234));
    assert_eq!(static_write_addr(0x95, 0x12), None);
    assert!(is_vsync_write(0x85, 0x00));
    assert!(is_vsync_write(0x86, 0x40));
    assert!(!is_vsync_write(0x85, 0x01));
    assert!(is_frame_sync_write(0x84, 0x02));
    assert!(!is_frame_sync_write(0x84, 0x03));
    // $1002 has A12 set: cartridge space, not the TIA
    assert!(!is_wsync_write(0x8D, 0x1002));
}

#[test]
fn discover_blocks_cuts_at_other_starts() {
    let mut rom = vec![0xEA; 4096];
    rom[0x0FFC] = 0x00;
    rom[0x0FFD] = 0xF0;
    rom[0x0FFA] = 0x00;
    rom[0x0FFB] = 0xF0;
    rom[0x0FFE] = 0x00;
    rom[0x0FFF] = 0xF0;
    // NOP; NOP; NOP; JMP $F001
    rom[0x0003] = 0x4C;
    rom[0x0004] = 0x01;
    rom[0x0005] = 0xF0;
    let blocks = discover_blocks(&rom, BankScheme::Fixed);
    assert_eq!(blocks.len(), 2);
    assert_eq!(blocks[0].start_pc, 0xF000);
    assert_eq!(blocks[0].instructions.len(), 1);
    assert_eq!(blocks[0].exit_type, ExitType::Fallthrough { next_pc: 0xF001 });
    assert_eq!(blocks[1].start_pc, 0xF001);
    assert_eq!(blocks[1].instructions.len(), 3);
    assert_eq!(blocks[1].exit_type, ExitType::JmpAbs { target: 0xF001 });
}

#[test]
fn discover_blocks_drops_runs_into_hotspots() {
    let mut rom = vec![0xEA; 4096];
    // every vector points at a NOP run that reaches the hotspot page
    for v in [0x0FFA, 0x0FFC, 0x0FFE] {
        rom[v] = 0xE0;
        rom[v + 1] = 0xFF;
    }
    let blocks = discover_blocks(&rom, BankScheme::Fixed);
    assert!(blocks.is_empty());
}

#[test]
fn block_summary_counts() {
    let blocks = discover_blocks(&simple_rom(), BankScheme::Fixed);
    let summary = block_summary(&blocks);
    assert_eq!(summary.blocks, blocks.len());
    let instrs: usize = blocks.iter().map(|b| b.instructions.len()).sum();
    assert_eq!(summary.instructions, instrs);
    let cycles: u32 = blocks.iter().map(|b| b.base_cycles()).sum();
    assert_eq!(summary.base_cycles, cycles);
    // reset block: LDA #, STA WSYNC (wsync exit); then JMP $F000
    assert_eq!(summary.exit_counts[7], 1);
    assert_eq!(summary.exit_counts[1], 1);
    assert_eq!(summary.exit_counts.iter().sum::<usize>(), blocks.len());
    let min = blocks.iter().map(|b| b.instructions.len()).min().unwrap();
    let max = blocks.iter().map(|b| b.instructions.len()).max().unwrap();
    assert_eq!(summary.sizes, Some((min, max)));
    let empty = block_summary(&[]);
    assert_eq!(empty.blocks, 0);
    assert_eq!(empty.sizes, None);
}
