//! ROM compiler: static control-flow analysis of a cartridge image.
//!
//! Walks the ROM to discover basic blocks (straight-line instruction
//! sequences) and classifies every documented opcode by operation and
//! addressing mode.
use vstd::prelude::*;
use vstd::set_lib::{set_int_range, lemma_int_range, lemma_len_subset};
use crate::atari::{BankScheme, bank_byte, bank_count};
use crate::isa::{add16, word, signed_offset, is_branch_opcode};

verus! {

// ============================================================
// Instruction tables
// ============================================================

/// Base cycle count of every opcode (0 for opcodes the CPU does not execute).
pub const CYCLE_TABLE: [u8; 256] = [
    7,6,0,0,0,3,5,0,3,2,2,0,0,4,6,0, 2,5,0,0,0,4,6,0,2,4,0,0,0,4,7,0,
    6,6,0,0,3,3,5,0,4,2,2,0,4,4,6,0, 2,5,0,0,0,4,6,0,2,4,0,0,0,4,7,0,
    6,6,0,0,0,3,5,0,3,2,2,0,3,4,6,0, 2,5,0,0,0,4,6,0,2,4,0,0,0,4,7,0,
    6,6,0,0,0,3,5,0,4,2,2,0,5,4,6,0, 2,5,0,0,0,4,6,0,2,4,0,0,0,4,7,0,
    0,6,0,0,3,3,3,0,2,0,2,0,4,4,4,0, 2,6,0,0,4,4,4,0,2,5,2,0,5,5,0,0,
    2,6,2,0,3,3,3,0,2,2,2,0,4,4,4,0, 2,5,0,0,4,4,4,0,2,4,2,0,4,4,4,0,
    2,6,0,0,3,3,5,0,2,2,2,0,4,4,6,0, 2,5,0,0,0,4,6,0,2,4,0,0,0,4,7,0,
    2,6,0,0,3,3,5,0,2,2,2,0,4,4,6,0, 2,5,0,0,0,4,6,0,2,4,0,0,0,4,7,0,
];

/// Instruction length in bytes of every opcode.
pub const SIZE_TABLE: [u8; 256] = [
    1,2,1,1,1,2,2,1,1,2,1,1,1,3,3,1, 2,2,1,1,1,2,2,1,1,3,1,1,1,3,3,1,
    3,2,1,1,2,2,2,1,1,2,1,1,3,3,3,1, 2,2,1,1,1,2,2,1,1,3,1,1,1,3,3,1,
    1,2,1,1,1,2,2,1,1,2,1,1,3,3,3,1, 2,2,1,1,1,2,2,1,1,3,1,1,1,3,3,1,
    1,2,1,1,1,2,2,1,1,2,1,1,3,3,3,1, 2,2,1,1,1,2,2,1,1,3,1,1,1,3,3,1,
    1,2,1,1,2,2,2,1,1,1,1,1,3,3,3,1, 2,2,1,1,2,2,2,1,1,3,1,1,3,3,1,1,
    2,2,2,1,2,2,2,1,1,2,1,1,3,3,3,1, 2,2,1,1,2,2,2,1,1,3,1,1,3,3,3,1,
    2,2,1,1,2,2,2,1,1,2,1,1,3,3,3,1, 2,2,1,1,1,2,2,1,1,3,1,1,1,3,3,1,
    2,2,1,1,2,2,2,1,1,2,1,1,3,3,3,1, 2,2,1,1,1,2,2,1,1,3,1,1,1,3,3,1,
];

// ============================================================
// Types
// ============================================================

/// Operation of a straight-line (non control-flow) instruction.
#[derive(Clone, Copy, Debug, PartialEq, Eq, Structural)]
pub enum Op {
    Lda, Ldx, Ldy, Sta, Stx, Sty,
    Adc, Sbc, And, Ora, Eor, Cmp, Cpx, Cpy, Bit,
    AslM, LsrM, RolM, RorM, IncM, DecM,
    AslA, LsrA, RolA, RorA,
    Tax, Txa, Tay, Tya, Txs, Tsx,
    Inx, Iny, Dex, Dey,
    Pha, Pla, Php, Plp,
    Clc, Sec, Cli, Sei, Clv, Cld, Sed,
    Nop,
}

/// Addressing mode of a straight-line instruction.
#[derive(Clone, Copy, Debug, PartialEq, Eq, Structural)]
pub enum AddrMode {
    Implied, Immediate,
    ZeroPage, ZeroPageX, ZeroPageY,
    Absolute, AbsoluteX, AbsoluteY,
    IndirectX, IndirectY,
}

/// Operations that store a register to memory.
pub open spec fn op_is_store(op: Op) -> bool {
    op == Op::Sta || op == Op::Stx || op == Op::Sty
}

/// Read-modify-write operations on memory.
pub open spec fn op_is_rmw(op: Op) -> bool {
    op == Op::AslM || op == Op::LsrM || op == Op::RolM || op == Op::RorM || op == Op::IncM
        || op == Op::DecM
}

/// Operations that push to or pull from the stack.
pub open spec fn op_is_stack(op: Op) -> bool {
    op == Op::Pha || op == Op::Pla || op == Op::Php || op == Op::Plp
}

/// Operations that read an operand value (and may pay a page-cross penalty).
pub open spec fn op_is_load(op: Op) -> bool {
    op == Op::Lda || op == Op::Ldx || op == Op::Ldy || op == Op::Adc || op == Op::Sbc
        || op == Op::And || op == Op::Ora || op == Op::Eor || op == Op::Cmp || op == Op::Cpx
        || op == Op::Cpy
}

/// Instruction length implied by an addressing mode.
pub open spec fn mode_size(mode: AddrMode) -> u8 {
    match mode {
        AddrMode::Implied => 1,
        AddrMode::Immediate | AddrMode::ZeroPage | AddrMode::ZeroPageX | AddrMode::ZeroPageY
        | AddrMode::IndirectX | AddrMode::IndirectY => 2,
        AddrMode::Absolute | AddrMode::AbsoluteX | AddrMode::AbsoluteY => 3,
    }
}

/// The documented 6502 instruction set minus control flow: operation and
/// addressing mode of every opcode that runs straight through.
pub open spec fn decode(opcode: u8) -> Option<(Op, AddrMode)> {
    match opcode {
        0x69 => Some((Op::Adc, AddrMode::Immediate)),
        0x65 => Some((Op::Adc, AddrMode::ZeroPage)),
        0x75 => Some((Op::Adc, AddrMode::ZeroPageX)),
        0x6D => Some((Op::Adc, AddrMode::Absolute)),
        0x7D => Some((Op::Adc, AddrMode::AbsoluteX)),
        0x79 => Some((Op::Adc, AddrMode::AbsoluteY)),
        0x61 => Some((Op::Adc, AddrMode::IndirectX)),
        0x71 => Some((Op::Adc, AddrMode::IndirectY)),
        0xE9 => Some((Op::Sbc, AddrMode::Immediate)),
        0xE5 => Some((Op::Sbc, AddrMode::ZeroPage)),
        0xF5 => Some((Op::Sbc, AddrMode::ZeroPageX)),
        0xED => Some((Op::Sbc, AddrMode::Absolute)),
        0xFD => Some((Op::Sbc, AddrMode::AbsoluteX)),
        0xF9 => Some((Op::Sbc, AddrMode::AbsoluteY)),
        0xE1 => Some((Op::Sbc, AddrMode::IndirectX)),
        0xF1 => Some((Op::Sbc, AddrMode::IndirectY)),
        0x29 => Some((Op::And, AddrMode::Immediate)),
        0x25 => Some((Op::And, AddrMode::ZeroPage)),
        0x35 => Some((Op::And, AddrMode::ZeroPageX)),
        0x2D => Some((Op::And, AddrMode::Absolute)),
        0x3D => Some((Op::And, AddrMode::AbsoluteX)),
        0x39 => Some((Op::And, AddrMode::AbsoluteY)),
        0x21 => Some((Op::And, AddrMode::IndirectX)),
        0x31 => Some((Op::And, AddrMode::IndirectY)),
        0x09 => Some((Op::Ora, AddrMode::Immediate)),
        0x05 => Some((Op::Ora, AddrMode::ZeroPage)),
        0x15 => Some((Op::Ora, AddrMode::ZeroPageX)),
        0x0D => Some((Op::Ora, AddrMode::Absolute)),
        0x1D => Some((Op::Ora, AddrMode::AbsoluteX)),
        0x19 => Some((Op::Ora, AddrMode::AbsoluteY)),
        0x01 => Some((Op::Ora, AddrMode::IndirectX)),
        0x11 => Some((Op::Ora, AddrMode::IndirectY)),
        0x49 => Some((Op::Eor, AddrMode::Immediate)),
        0x45 => Some((Op::Eor, AddrMode::ZeroPage)),
        0x55 => Some((Op::Eor, AddrMode::ZeroPageX)),
        0x4D => Some((Op::Eor, AddrMode::Absolute)),
        0x5D => Some((Op::Eor, AddrMode::AbsoluteX)),
        0x59 => Some((Op::Eor, AddrMode::AbsoluteY)),
        0x41 => Some((Op::Eor, AddrMode::IndirectX)),
        0x51 => Some((Op::Eor, AddrMode::IndirectY)),
        0xC9 => Some((Op::Cmp, AddrMode::Immediate)),
        0xC5 => Some((Op::Cmp, AddrMode::ZeroPage)),
        0xD5 => Some((Op::Cmp, AddrMode::ZeroPageX)),
        0xCD => Some((Op::Cmp, AddrMode::Absolute)),
        0xDD => Some((Op::Cmp, AddrMode::AbsoluteX)),
        0xD9 => Some((Op::Cmp, AddrMode::AbsoluteY)),
        0xC1 => Some((Op::Cmp, AddrMode::IndirectX)),
        0xD1 => Some((Op::Cmp, AddrMode::IndirectY)),
        0xE0 => Some((Op::Cpx, AddrMode::Immediate)),
        0xE4 => Some((Op::Cpx, AddrMode::ZeroPage)),
        0xEC => Some((Op::Cpx, AddrMode::Absolute)),
        0xC0 => Some((Op::Cpy, AddrMode::Immediate)),
        0xC4 => Some((Op::Cpy, AddrMode::ZeroPage)),
        0xCC => Some((Op::Cpy, AddrMode::Absolute)),
        0xA9 => Some((Op::Lda, AddrMode::Immediate)),
        0xA5 => Some((Op::Lda, AddrMode::ZeroPage)),
        0xB5 => Some((Op::Lda, AddrMode::ZeroPageX)),
        0xAD => Some((Op::Lda, AddrMode::Absolute)),
        0xBD => Some((Op::Lda, AddrMode::AbsoluteX)),
        0xB9 => Some((Op::Lda, AddrMode::AbsoluteY)),
        0xA1 => Some((Op::Lda, AddrMode::IndirectX)),
        0xB1 => Some((Op::Lda, AddrMode::IndirectY)),
        0xA2 => Some((Op::Ldx, AddrMode::Immediate)),
        0xA6 => Some((Op::Ldx, AddrMode::ZeroPage)),
        0xB6 => Some((Op::Ldx, AddrMode::ZeroPageY)),
        0xAE => Some((Op::Ldx, AddrMode::Absolute)),
        0xBE => Some((Op::Ldx, AddrMode::AbsoluteY)),
        0xA0 => Some((Op::Ldy, AddrMode::Immediate)),
        0xA4 => Some((Op::Ldy, AddrMode::ZeroPage)),
        0xB4 => Some((Op::Ldy, AddrMode::ZeroPageX)),
        0xAC => Some((Op::Ldy, AddrMode::Absolute)),
        0xBC => Some((Op::Ldy, AddrMode::AbsoluteX)),
        0x85 => Some((Op::Sta, AddrMode::ZeroPage)),
        0x95 => Some((Op::Sta, AddrMode::ZeroPageX)),
        0x8D => Some((Op::Sta, AddrMode::Absolute)),
        0x9D => Some((Op::Sta, AddrMode::AbsoluteX)),
        0x99 => Some((Op::Sta, AddrMode::AbsoluteY)),
        0x81 => Some((Op::Sta, AddrMode::IndirectX)),
        0x91 => Some((Op::Sta, AddrMode::IndirectY)),
        0x86 => Some((Op::Stx, AddrMode::ZeroPage)),
        0x96 => Some((Op::Stx, AddrMode::ZeroPageY)),
        0x8E => Some((Op::Stx, AddrMode::Absolute)),
        0x84 => Some((Op::Sty, AddrMode::ZeroPage)),
        0x94 => Some((Op::Sty, AddrMode::ZeroPageX)),
        0x8C => Some((Op::Sty, AddrMode::Absolute)),
        0x06 => Some((Op::AslM, AddrMode::ZeroPage)),
        0x16 => Some((Op::AslM, AddrMode::ZeroPageX)),
        0x0E => Some((Op::AslM, AddrMode::Absolute)),
        0x1E => Some((Op::AslM, AddrMode::AbsoluteX)),
        0x46 => Some((Op::LsrM, AddrMode::ZeroPage)),
        0x56 => Some((Op::LsrM, AddrMode::ZeroPageX)),
        0x4E => Some((Op::LsrM, AddrMode::Absolute)),
        0x5E => Some((Op::LsrM, AddrMode::AbsoluteX)),
        0x26 => Some((Op::RolM, AddrMode::ZeroPage)),
        0x36 => Some((Op::RolM, AddrMode::ZeroPageX)),
        0x2E => Some((Op::RolM, AddrMode::Absolute)),
        0x3E => Some((Op::RolM, AddrMode::AbsoluteX)),
        0x66 => Some((Op::RorM, AddrMode::ZeroPage)),
        0x76 => Some((Op::RorM, AddrMode::ZeroPageX)),
        0x6E => Some((Op::RorM, AddrMode::Absolute)),
        0x7E => Some((Op::RorM, AddrMode::AbsoluteX)),
        0xE6 => Some((Op::IncM, AddrMode::ZeroPage)),
        0xF6 => Some((Op::IncM, AddrMode::ZeroPageX)),
        0xEE => Some((Op::IncM, AddrMode::Absolute)),
        0xFE => Some((Op::IncM, AddrMode::AbsoluteX)),
        0xC6 => Some((Op::DecM, AddrMode::ZeroPage)),
        0xD6 => Some((Op::DecM, AddrMode::ZeroPageX)),
        0xCE => Some((Op::DecM, AddrMode::Absolute)),
        0xDE => Some((Op::DecM, AddrMode::AbsoluteX)),
        0x0A => Some((Op::AslA, AddrMode::Implied)),
        0x4A => Some((Op::LsrA, AddrMode::Implied)),
        0x2A => Some((Op::RolA, AddrMode::Implied)),
        0x6A => Some((Op::RorA, AddrMode::Implied)),
        0x24 => Some((Op::Bit, AddrMode::ZeroPage)),
        0x2C => Some((Op::Bit, AddrMode::Absolute)),
        0xAA => Some((Op::Tax, AddrMode::Implied)),
        0x8A => Some((Op::Txa, AddrMode::Implied)),
        0xA8 => Some((Op::Tay, AddrMode::Implied)),
        0x98 => Some((Op::Tya, AddrMode::Implied)),
        0x9A => Some((Op::Txs, AddrMode::Implied)),
        0xBA => Some((Op::Tsx, AddrMode::Implied)),
        0xE8 => Some((Op::Inx, AddrMode::Implied)),
        0xC8 => Some((Op::Iny, AddrMode::Implied)),
        0xCA => Some((Op::Dex, AddrMode::Implied)),
        0x88 => Some((Op::Dey, AddrMode::Implied)),
        0x48 => Some((Op::Pha, AddrMode::Implied)),
        0x68 => Some((Op::Pla, AddrMode::Implied)),
        0x08 => Some((Op::Php, AddrMode::Implied)),
        0x28 => Some((Op::Plp, AddrMode::Implied)),
        0x18 => Some((Op::Clc, AddrMode::Implied)),
        0x38 => Some((Op::Sec, AddrMode::Implied)),
        0x58 => Some((Op::Cli, AddrMode::Implied)),
        0x78 => Some((Op::Sei, AddrMode::Implied)),
        0xB8 => Some((Op::Clv, AddrMode::Implied)),
        0xD8 => Some((Op::Cld, AddrMode::Implied)),
        0xF8 => Some((Op::Sed, AddrMode::Implied)),
        0xEA => Some((Op::Nop, AddrMode::Implied)),
        _ => None,
    }
}

/// Control-flow opcodes: branches, JMP, JSR, RTS, RTI and BRK.
pub open spec fn is_control_opcode(opcode: u8) -> bool {
    opcode == 0x10 || opcode == 0x30 || opcode == 0x50 || opcode == 0x70 || opcode == 0x90
        || opcode == 0xB0 || opcode == 0xD0 || opcode == 0xF0 || opcode == 0x4C || opcode == 0x6C
        || opcode == 0x20 || opcode == 0x60 || opcode == 0x40 || opcode == 0x00
}

/// Base cycle count of a straight-line instruction, opcode fetch included.
pub open spec fn straight_cycles(op: Op, mode: AddrMode) -> u8 {
    if op == Op::Pha || op == Op::Php {
        3
    } else if op == Op::Pla || op == Op::Plp {
        4
    } else if op_is_store(op) {
        match mode {
            AddrMode::ZeroPage => 3,
            AddrMode::ZeroPageX | AddrMode::ZeroPageY | AddrMode::Absolute => 4,
            AddrMode::AbsoluteX | AddrMode::AbsoluteY => 5,
            _ => 6,
        }
    } else if op_is_rmw(op) {
        match mode {
            AddrMode::ZeroPage => 5,
            AddrMode::ZeroPageX | AddrMode::Absolute => 6,
            _ => 7,
        }
    } else {
        match mode {
            AddrMode::Implied | AddrMode::Immediate => 2,
            AddrMode::ZeroPage => 3,
            AddrMode::IndirectX => 6,
            AddrMode::IndirectY => 5,
            _ => 4,
        }
    }
}

/// Opcodes the CPU executes.
pub open spec fn is_legal_opcode(opcode: u8) -> bool {
    decode(opcode) is Some || is_control_opcode(opcode)
}

// ============================================================
// Opcode classification
// ============================================================

pub fn classify(opcode: u8) -> (r: Option<(Op, AddrMode)>)
    ensures
        r == decode(opcode),
{
    match opcode {
        0x69 => Some((Op::Adc, AddrMode::Immediate)),
        0x65 => Some((Op::Adc, AddrMode::ZeroPage)),
        0x75 => Some((Op::Adc, AddrMode::ZeroPageX)),
        0x6D => Some((Op::Adc, AddrMode::Absolute)),
        0x7D => Some((Op::Adc, AddrMode::AbsoluteX)),
        0x79 => Some((Op::Adc, AddrMode::AbsoluteY)),
        0x61 => Some((Op::Adc, AddrMode::IndirectX)),
        0x71 => Some((Op::Adc, AddrMode::IndirectY)),
        0xE9 => Some((Op::Sbc, AddrMode::Immediate)),
        0xE5 => Some((Op::Sbc, AddrMode::ZeroPage)),
        0xF5 => Some((Op::Sbc, AddrMode::ZeroPageX)),
        0xED => Some((Op::Sbc, AddrMode::Absolute)),
        0xFD => Some((Op::Sbc, AddrMode::AbsoluteX)),
        0xF9 => Some((Op::Sbc, AddrMode::AbsoluteY)),
        0xE1 => Some((Op::Sbc, AddrMode::IndirectX)),
        0xF1 => Some((Op::Sbc, AddrMode::IndirectY)),
        0x29 => Some((Op::And, AddrMode::Immediate)),
        0x25 => Some((Op::And, AddrMode::ZeroPage)),
        0x35 => Some((Op::And, AddrMode::ZeroPageX)),
        0x2D => Some((Op::And, AddrMode::Absolute)),
        0x3D => Some((Op::And, AddrMode::AbsoluteX)),
        0x39 => Some((Op::And, AddrMode::AbsoluteY)),
        0x21 => Some((Op::And, AddrMode::IndirectX)),
        0x31 => Some((Op::And, AddrMode::IndirectY)),
        0x09 => Some((Op::Ora, AddrMode::Immediate)),
        0x05 => Some((Op::Ora, AddrMode::ZeroPage)),
        0x15 => Some((Op::Ora, AddrMode::ZeroPageX)),
        0x0D => Some((Op::Ora, AddrMode::Absolute)),
        0x1D => Some((Op::Ora, AddrMode::AbsoluteX)),
        0x19 => Some((Op::Ora, AddrMode::AbsoluteY)),
        0x01 => Some((Op::Ora, AddrMode::IndirectX)),
        0x11 => Some((Op::Ora, AddrMode::IndirectY)),
        0x49 => Some((Op::Eor, AddrMode::Immediate)),
        0x45 => Some((Op::Eor, AddrMode::ZeroPage)),
        0x55 => Some((Op::Eor, AddrMode::ZeroPageX)),
        0x4D => Some((Op::Eor, AddrMode::Absolute)),
        0x5D => Some((Op::Eor, AddrMode::AbsoluteX)),
        0x59 => Some((Op::Eor, AddrMode::AbsoluteY)),
        0x41 => Some((Op::Eor, AddrMode::IndirectX)),
        0x51 => Some((Op::Eor, AddrMode::IndirectY)),
        0xC9 => Some((Op::Cmp, AddrMode::Immediate)),
        0xC5 => Some((Op::Cmp, AddrMode::ZeroPage)),
        0xD5 => Some((Op::Cmp, AddrMode::ZeroPageX)),
        0xCD => Some((Op::Cmp, AddrMode::Absolute)),
        0xDD => Some((Op::Cmp, AddrMode::AbsoluteX)),
        0xD9 => Some((Op::Cmp, AddrMode::AbsoluteY)),
        0xC1 => Some((Op::Cmp, AddrMode::IndirectX)),
        0xD1 => Some((Op::Cmp, AddrMode::IndirectY)),
        0xE0 => Some((Op::Cpx, AddrMode::Immediate)),
        0xE4 => Some((Op::Cpx, AddrMode::ZeroPage)),
        0xEC => Some((Op::Cpx, AddrMode::Absolute)),
        0xC0 => Some((Op::Cpy, AddrMode::Immediate)),
        0xC4 => Some((Op::Cpy, AddrMode::ZeroPage)),
        0xCC => Some((Op::Cpy, AddrMode::Absolute)),
        0xA9 => Some((Op::Lda, AddrMode::Immediate)),
        0xA5 => Some((Op::Lda, AddrMode::ZeroPage)),
        0xB5 => Some((Op::Lda, AddrMode::ZeroPageX)),
        0xAD => Some((Op::Lda, AddrMode::Absolute)),
        0xBD => Some((Op::Lda, AddrMode::AbsoluteX)),
        0xB9 => Some((Op::Lda, AddrMode::AbsoluteY)),
        0xA1 => Some((Op::Lda, AddrMode::IndirectX)),
        0xB1 => Some((Op::Lda, AddrMode::IndirectY)),
        0xA2 => Some((Op::Ldx, AddrMode::Immediate)),
        0xA6 => Some((Op::Ldx, AddrMode::ZeroPage)),
        0xB6 => Some((Op::Ldx, AddrMode::ZeroPageY)),
        0xAE => Some((Op::Ldx, AddrMode::Absolute)),
        0xBE => Some((Op::Ldx, AddrMode::AbsoluteY)),
        0xA0 => Some((Op::Ldy, AddrMode::Immediate)),
        0xA4 => Some((Op::Ldy, AddrMode::ZeroPage)),
        0xB4 => Some((Op::Ldy, AddrMode::ZeroPageX)),
        0xAC => Some((Op::Ldy, AddrMode::Absolute)),
        0xBC => Some((Op::Ldy, AddrMode::AbsoluteX)),
        0x85 => Some((Op::Sta, AddrMode::ZeroPage)),
        0x95 => Some((Op::Sta, AddrMode::ZeroPageX)),
        0x8D => Some((Op::Sta, AddrMode::Absolute)),
        0x9D => Some((Op::Sta, AddrMode::AbsoluteX)),
        0x99 => Some((Op::Sta, AddrMode::AbsoluteY)),
        0x81 => Some((Op::Sta, AddrMode::IndirectX)),
        0x91 => Some((Op::Sta, AddrMode::IndirectY)),
        0x86 => Some((Op::Stx, AddrMode::ZeroPage)),
        0x96 => Some((Op::Stx, AddrMode::ZeroPageY)),
        0x8E => Some((Op::Stx, AddrMode::Absolute)),
        0x84 => Some((Op::Sty, AddrMode::ZeroPage)),
        0x94 => Some((Op::Sty, AddrMode::ZeroPageX)),
        0x8C => Some((Op::Sty, AddrMode::Absolute)),
        0x06 => Some((Op::AslM, AddrMode::ZeroPage)),
        0x16 => Some((Op::AslM, AddrMode::ZeroPageX)),
        0x0E => Some((Op::AslM, AddrMode::Absolute)),
        0x1E => Some((Op::AslM, AddrMode::AbsoluteX)),
        0x46 => Some((Op::LsrM, AddrMode::ZeroPage)),
        0x56 => Some((Op::LsrM, AddrMode::ZeroPageX)),
        0x4E => Some((Op::LsrM, AddrMode::Absolute)),
        0x5E => Some((Op::LsrM, AddrMode::AbsoluteX)),
        0x26 => Some((Op::RolM, AddrMode::ZeroPage)),
        0x36 => Some((Op::RolM, AddrMode::ZeroPageX)),
        0x2E => Some((Op::RolM, AddrMode::Absolute)),
        0x3E => Some((Op::RolM, AddrMode::AbsoluteX)),
        0x66 => Some((Op::RorM, AddrMode::ZeroPage)),
        0x76 => Some((Op::RorM, AddrMode::ZeroPageX)),
        0x6E => Some((Op::RorM, AddrMode::Absolute)),
        0x7E => Some((Op::RorM, AddrMode::AbsoluteX)),
        0xE6 => Some((Op::IncM, AddrMode::ZeroPage)),
        0xF6 => Some((Op::IncM, AddrMode::ZeroPageX)),
        0xEE => Some((Op::IncM, AddrMode::Absolute)),
        0xFE => Some((Op::IncM, AddrMode::AbsoluteX)),
        0xC6 => Some((Op::DecM, AddrMode::ZeroPage)),
        0xD6 => Some((Op::DecM, AddrMode::ZeroPageX)),
        0xCE => Some((Op::DecM, AddrMode::Absolute)),
        0xDE => Some((Op::DecM, AddrMode::AbsoluteX)),
        0x0A => Some((Op::AslA, AddrMode::Implied)),
        0x4A => Some((Op::LsrA, AddrMode::Implied)),
        0x2A => Some((Op::RolA, AddrMode::Implied)),
        0x6A => Some((Op::RorA, AddrMode::Implied)),
        0x24 => Some((Op::Bit, AddrMode::ZeroPage)),
        0x2C => Some((Op::Bit, AddrMode::Absolute)),
        0xAA => Some((Op::Tax, AddrMode::Implied)),
        0x8A => Some((Op::Txa, AddrMode::Implied)),
        0xA8 => Some((Op::Tay, AddrMode::Implied)),
        0x98 => Some((Op::Tya, AddrMode::Implied)),
        0x9A => Some((Op::Txs, AddrMode::Implied)),
        0xBA => Some((Op::Tsx, AddrMode::Implied)),
        0xE8 => Some((Op::Inx, AddrMode::Implied)),
        0xC8 => Some((Op::Iny, AddrMode::Implied)),
        0xCA => Some((Op::Dex, AddrMode::Implied)),
        0x88 => Some((Op::Dey, AddrMode::Implied)),
        0x48 => Some((Op::Pha, AddrMode::Implied)),
        0x68 => Some((Op::Pla, AddrMode::Implied)),
        0x08 => Some((Op::Php, AddrMode::Implied)),
        0x28 => Some((Op::Plp, AddrMode::Implied)),
        0x18 => Some((Op::Clc, AddrMode::Implied)),
        0x38 => Some((Op::Sec, AddrMode::Implied)),
        0x58 => Some((Op::Cli, AddrMode::Implied)),
        0x78 => Some((Op::Sei, AddrMode::Implied)),
        0xB8 => Some((Op::Clv, AddrMode::Implied)),
        0xD8 => Some((Op::Cld, AddrMode::Implied)),
        0xF8 => Some((Op::Sed, AddrMode::Implied)),
        0xEA => Some((Op::Nop, AddrMode::Implied)),
        _ => None,
    }
}

/// Conditional branch opcodes.
pub fn is_branch(opcode: u8) -> (r: bool)
    ensures
        r == crate::isa::is_branch_opcode(opcode),
{
    opcode == 0x10 || opcode == 0x30 || opcode == 0x50 || opcode == 0x70 || opcode == 0x90
        || opcode == 0xB0 || opcode == 0xD0 || opcode == 0xF0
}

/// Every classified opcode has the instruction length and a nonzero base
/// cycle count that the tables give it.
pub proof fn lemma_tables_match_decode(opcode: u8)
    ensures
        decode(opcode) matches Some((op, mode)) ==> SIZE_TABLE[opcode as int] == mode_size(mode)
            && CYCLE_TABLE[opcode as int] == straight_cycles(op, mode),
        is_legal_opcode(opcode) <==> (CYCLE_TABLE[opcode as int] > 0 && opcode != 0x9C),
{
}

/// No instruction takes more than seven base cycles, and every instruction is
/// at most three bytes long.
pub proof fn lemma_tables_small(opcode: u8)
    ensures
        CYCLE_TABLE[opcode as int] <= 7,
        SIZE_TABLE[opcode as int] <= 3,
{
}


/// Every implemented instruction takes at least two base cycles; a branch
/// takes two, and an indexed load that can cross a page at most six.
pub proof fn lemma_cycle_table_range(opcode: u8)
    ensures
        is_legal_opcode(opcode) ==> CYCLE_TABLE[opcode as int] >= 2,
        is_branch_opcode(opcode) ==> CYCLE_TABLE[opcode as int] == 2,
        decode(opcode) matches Some((op, mode)) ==> (op_is_load(op) && (mode == AddrMode::AbsoluteX
            || mode == AddrMode::AbsoluteY || mode == AddrMode::IndirectY)
            ==> CYCLE_TABLE[opcode as int] <= 6),
{
    lemma_tables_match_decode(opcode);
}

// ============================================================
// Decoded code
// ============================================================

/// One instruction as it sits in the ROM.
#[derive(Clone, Copy, Debug, PartialEq, Eq, Structural)]
pub struct DecodedInstr {
    pub pc: u16,
    pub opcode: u8,
    pub operand: u16,
    pub size: u8,
    pub cycles: u8,
}

/// How control leaves a basic block.
#[derive(Clone, Copy, Debug, PartialEq, Eq, Structural)]
pub enum ExitType {
    Branch { taken_pc: u16, not_taken_pc: u16 },
    JmpAbs { target: u16 },
    JmpInd { operand: u16 },
    Jsr { target: u16, return_pc: u16 },
    Rts,
    Rti,
    Brk,
    Wsync { next_pc: u16 },
    Fallthrough { next_pc: u16 },
}

/// A straight-line run of instructions of one bank and how it ends.
#[derive(Clone, Debug)]
pub struct BasicBlock {
    pub start_pc: u16,
    pub bank: usize,
    pub instructions: Vec<DecodedInstr>,
    pub exit_type: ExitType,
}

/// Sum of the base cycles of a run of instructions.
pub open spec fn cycles_sum(instrs: Seq<DecodedInstr>) -> int
    decreases instrs.len(),
{
    if instrs.len() == 0 {
        0
    } else {
        cycles_sum(instrs.drop_last()) + instrs.last().cycles
    }
}

/// Identifier of a block: its bank in bits 12 and up, the offset of its start
/// within the 4K window below.
pub open spec fn spec_block_id(bank: usize, start_pc: u16) -> int {
    (bank % 0x100000) * 4096 + (start_pc % 4096)
}

impl BasicBlock {
    /// Sum of the base cycles of the block's instructions.
    pub fn base_cycles(&self) -> (r: u32)
        requires
            cycles_sum(self.instructions@) <= u32::MAX,
        ensures
            r == cycles_sum(self.instructions@),
    {
        let mut total: u32 = 0;
        let mut i: usize = 0;
        while i < self.instructions.len()
            invariant
                i <= self.instructions@.len(),
                cycles_sum(self.instructions@) <= u32::MAX,
                total == cycles_sum(self.instructions@.subrange(0, i as int)),
            decreases self.instructions@.len() - i,
        {
            proof {
                let s = self.instructions@;
                assert(s.subrange(0, i + 1).drop_last() =~= s.subrange(0, i as int));
                lemma_cycles_sum_prefix(s, i + 1);
            }
            total = total + self.instructions[i].cycles as u32;
            i = i + 1;
        }
        proof {
            assert(self.instructions@.subrange(0, i as int) =~= self.instructions@);
        }
        total
    }

    /// Block identifier: bank in the upper bits, start offset in the low 12.
    pub fn block_id(&self) -> (r: u32)
        ensures
            r == spec_block_id(self.bank, self.start_pc),
    {
        let bank = self.bank;
        let b = bank as u32;
        let pc = self.start_pc;
        let o = (pc as u32) & 0x0FFF;
        assert(o == pc % 4096) by (bit_vector)
            requires
                o == (pc as u32) & 0x0FFF,
        ;
        assert(b % 0x100000 == bank % 0x100000) by (bit_vector)
            requires
                b == bank as u32,
        ;
        assert((b << 12u32) | o == (b % 0x100000) * 4096 + o) by (bit_vector)
            requires
                o < 4096,
        ;
        (b << 12) | o
    }
}

/// A prefix sum of cycles never exceeds the whole sum.
proof fn lemma_cycles_sum_prefix(s: Seq<DecodedInstr>, k: int)
    requires
        0 <= k <= s.len(),
    ensures
        cycles_sum(s.subrange(0, k)) <= cycles_sum(s),
    decreases s.len() - k,
{
    if k < s.len() {
        lemma_cycles_sum_prefix(s, k + 1);
        let t = s.subrange(0, k + 1);
        assert(t.drop_last() =~= s.subrange(0, k));
        assert(cycles_sum(t) == cycles_sum(t.drop_last()) + t.last().cycles);
    } else {
        assert(s.subrange(0, k) =~= s);
    }
}

// ============================================================
// ROM access helpers
// ============================================================

fn num_banks(scheme: BankScheme) -> (r: usize)
    ensures
        r == bank_count(scheme),
{
    match scheme {
        BankScheme::Fixed => 1,
        BankScheme::F8 => 2,
        BankScheme::F6 => 4,
        BankScheme::F4 => 8,
    }
}

/// The byte the CPU sees at `addr` with `bank` selected.
pub open spec fn spec_rom_byte(rom: Seq<u8>, scheme: BankScheme, bank: usize, addr: u16) -> u8 {
    bank_byte(rom, scheme, bank, (addr & 0x0FFF) as int)
}

/// Operand of an instruction of `size` bytes at `pc` (little-endian word for
/// three bytes, the byte for two, 0 for one).
pub open spec fn spec_operand(rom: Seq<u8>, scheme: BankScheme, bank: usize, pc: u16, size: u8) -> u16 {
    if size == 2 {
        spec_rom_byte(rom, scheme, bank, add16(pc, 1)) as u16
    } else if size == 3 {
        word(spec_rom_byte(rom, scheme, bank, add16(pc, 1)), spec_rom_byte(rom, scheme, bank, add16(pc, 2)))
    } else {
        0
    }
}

/// The instruction decoded at `pc` of `bank`.
pub open spec fn decoded_at(rom: Seq<u8>, scheme: BankScheme, bank: usize, pc: u16) -> DecodedInstr {
    let opcode = spec_rom_byte(rom, scheme, bank, pc);
    let size = SIZE_TABLE[opcode as int];
    DecodedInstr {
        pc,
        opcode,
        operand: spec_operand(rom, scheme, bank, pc, size),
        size,
        cycles: CYCLE_TABLE[opcode as int],
    }
}

/// Whether a ROM and bank can be read: small ROMs must not be empty (they are
/// mirrored by remainder), and the bank offset must fit in memory.
pub open spec fn rom_readable(rom: Seq<u8>, scheme: BankScheme, bank: usize) -> bool {
    (scheme == BankScheme::Fixed ==> rom.len() > 0) && bank < 0x10000
}

fn rom_byte(rom: &[u8], scheme: BankScheme, bank: usize, addr: u16) -> (r: u8)
    requires
        rom_readable(rom@, scheme, bank),
    ensures
        r == spec_rom_byte(rom@, scheme, bank, addr),
{
    let offset = addr & 0x0FFF;
    match scheme {
        BankScheme::Fixed => rom[(offset as usize) % rom.len()],
        _ => {
            let idx = bank * 4096 + offset as usize;
            if idx < rom.len() {
                rom[idx]
            } else {
                0
            }
        },
    }
}

fn read_vector(rom: &[u8], scheme: BankScheme, bank: usize, vec_addr: u16) -> (r: u16)
    requires
        rom_readable(rom@, scheme, bank),
    ensures
        r == word(
            spec_rom_byte(rom@, scheme, bank, vec_addr),
            spec_rom_byte(rom@, scheme, bank, add16(vec_addr, 1)),
        ),
{
    let lo = rom_byte(rom, scheme, bank, vec_addr);
    let hi = rom_byte(rom, scheme, bank, vec_addr.wrapping_add(1));
    assert((hi as u16) << 8u16 | (lo as u16) == hi as u16 * 256 + lo as u16) by (bit_vector);
    ((hi as u16) << 8) | (lo as u16)
}

fn read_operand(rom: &[u8], scheme: BankScheme, bank: usize, pc: u16, size: u8) -> (r: u16)
    requires
        rom_readable(rom@, scheme, bank),
    ensures
        r == spec_operand(rom@, scheme, bank, pc, size),
{
    if size == 2 {
        rom_byte(rom, scheme, bank, pc.wrapping_add(1)) as u16
    } else if size == 3 {
        let lo = rom_byte(rom, scheme, bank, pc.wrapping_add(1)) as u16;
        let hi = rom_byte(rom, scheme, bank, pc.wrapping_add(2)) as u16;
        assert(lo | (hi << 8u16) == hi * 256 + lo) by (bit_vector)
            requires
                lo < 256,
                hi < 256,
        ;
        lo | (hi << 8)
    } else {
        0
    }
}

// ============================================================
// TIA write detection
// ============================================================

/// Static write target of a zero-page or absolute store (STA/STX/STY).
pub open spec fn spec_static_write_addr(opcode: u8, operand: u16) -> Option<u16> {
    if opcode == 0x85 || opcode == 0x86 || opcode == 0x84 {
        Some(operand & 0xFF)
    } else if opcode == 0x8D || opcode == 0x8E || opcode == 0x8C {
        Some(operand)
    } else {
        None
    }
}

/// The statically known write target: every store (STA, STX, STY) in
/// absolute mode writes its operand, in zero-page mode the operand's low
/// byte; no other opcode (indexed stores included) has one.
pub proof fn lemma_static_write_addr(opcode: u8, operand: u16)
    ensures
        decode(opcode) matches Some((op, mode)) && op_is_store(op) && mode == AddrMode::Absolute
            ==> spec_static_write_addr(opcode, operand) == Some(operand),
        decode(opcode) matches Some((op, mode)) && op_is_store(op) && mode == AddrMode::ZeroPage
            ==> spec_static_write_addr(opcode, operand) == Some(operand & 0xFF),
        !(decode(opcode) matches Some((op, mode)) && op_is_store(op) && (mode == AddrMode::Absolute
            || mode == AddrMode::ZeroPage)) ==> spec_static_write_addr(opcode, operand) is None,
{
}

/// A store of any register to WSYNC ($02), absolute or zero-page, is a
/// WSYNC write and so ends its block.
pub proof fn lemma_wsync_stores(opcode: u8)
    ensures
        decode(opcode) matches Some((op, mode)) && op_is_store(op) && (mode == AddrMode::Absolute
            || mode == AddrMode::ZeroPage) ==> writes_tia_reg(opcode, 0x0002, 0x02)
            && spec_frame_sync_write(opcode, 0x0002) && spec_ends_block(opcode, 0x0002),
{
    lemma_static_write_addr(opcode, 0x0002);
    assert(0x0002u16 & 0xFF == 0x0002 && 0x0002u16 & 0x1080 == 0 && 0x0002u16 & 0x1000 == 0
        && 0x0002u16 & 0x3F == 0x02) by (bit_vector);
}

/// Whether a CPU address selects a TIA register (A12 = 0, A7 = 0).
pub open spec fn spec_is_tia_write_addr(addr: u16) -> bool {
    addr & 0x1080 == 0 && addr & 0x1000 == 0
}

/// A store whose static target is the TIA register `reg` (mirrors included).
pub open spec fn writes_tia_reg(opcode: u8, operand: u16, reg: u16) -> bool {
    match spec_static_write_addr(opcode, operand) {
        Some(addr) => spec_is_tia_write_addr(addr) && addr & 0x3F == reg,
        None => false,
    }
}

/// A store to WSYNC or VSYNC: these end a block.
pub open spec fn spec_frame_sync_write(opcode: u8, operand: u16) -> bool {
    writes_tia_reg(opcode, operand, 0x02) || writes_tia_reg(opcode, operand, 0x00)
}

/// A store to RESP0, RESP1, RESM0, RESM1 or RESBL.
pub open spec fn spec_tia_position_write(opcode: u8, operand: u16) -> bool {
    match spec_static_write_addr(opcode, operand) {
        Some(addr) => spec_is_tia_write_addr(addr) && 0x10 <= addr & 0x3F <= 0x14,
        None => false,
    }
}

/// Returns the static write target for ZP/ABS store instructions only.
pub fn static_write_addr(opcode: u8, operand: u16) -> (r: Option<u16>)
    ensures
        r == spec_static_write_addr(opcode, operand),
{
    if opcode == 0x85 || opcode == 0x86 || opcode == 0x84 {
        // STA/STX/STY zp
        Some(operand & 0xFF)
    } else if opcode == 0x8D || opcode == 0x8E || opcode == 0x8C {
        // STA/STX/STY abs
        Some(operand)
    } else {
        None
    }
}

pub fn is_tia_write_addr(addr: u16) -> (r: bool)
    ensures
        r == spec_is_tia_write_addr(addr),
{
    (addr & 0x1080) == 0x0000 && (addr & 0x1000) == 0
}

/// Whether the instruction is a store to WSYNC.
pub fn is_wsync_write(opcode: u8, operand: u16) -> (r: bool)
    ensures
        r == writes_tia_reg(opcode, operand, 0x02),
{
    match static_write_addr(opcode, operand) {
        Some(addr) => is_tia_write_addr(addr) && (addr & 0x3F) == 0x02,
        None => false,
    }
}

/// Whether the instruction is a store to VSYNC.
pub fn is_vsync_write(opcode: u8, operand: u16) -> (r: bool)
    ensures
        r == writes_tia_reg(opcode, operand, 0x00),
{
    match static_write_addr(opcode, operand) {
        Some(addr) => is_tia_write_addr(addr) && (addr & 0x3F) == 0x00,
        None => false,
    }
}

/// Returns true if this instruction requires a block split (WSYNC or VSYNC write).
/// These writes affect frame loop control flow and must be at block boundaries.
pub fn is_frame_sync_write(opcode: u8, operand: u16) -> (r: bool)
    ensures
        r == spec_frame_sync_write(opcode, operand),
{
    is_wsync_write(opcode, operand) || is_vsync_write(opcode, operand)
}

/// Whether the instruction is a store to an object position register.
pub fn is_tia_position_write(opcode: u8, operand: u16) -> (r: bool)
    ensures
        r == spec_tia_position_write(opcode, operand),
{
    match static_write_addr(opcode, operand) {
        Some(addr) => if is_tia_write_addr(addr) {
            let reg = addr & 0x3F;
            0x10 <= reg && reg <= 0x14
        } else {
            false
        },
        None => false,
    }
}

/// The bankswitch hotspot page $xFF4–$xFFF of every 4K window, which the
/// analysis never walks into.
pub open spec fn spec_in_hotspot(pc: u16) -> bool {
    pc & 0x0FFF >= 0x0FF4
}

pub fn in_hotspot_region(pc: u16) -> (r: bool)
    ensures
        r == spec_in_hotspot(pc),
{
    (pc & 0x0FFF) >= 0x0FF4
}


// ============================================================
// Block discovery
// ============================================================

/// Whether an instruction ends a basic block: control flow, a WSYNC or VSYNC
/// store, or an object position store.
pub open spec fn spec_ends_block(opcode: u8, operand: u16) -> bool {
    is_branch_opcode(opcode) || opcode == 0x4C || opcode == 0x6C || opcode == 0x20 || opcode == 0x60
        || opcode == 0x40 || opcode == 0x00 || spec_frame_sync_write(opcode, operand)
        || spec_tia_position_write(opcode, operand)
}

/// How a block that ends with `ins` is left.
pub open spec fn spec_exit_of(ins: DecodedInstr) -> ExitType {
    let next = add16(ins.pc, ins.size as int);
    if is_branch_opcode(ins.opcode) {
        ExitType::Branch {
            taken_pc: add16(next, signed_offset(ins.operand as u8)),
            not_taken_pc: next,
        }
    } else if ins.opcode == 0x4C {
        ExitType::JmpAbs { target: ins.operand }
    } else if ins.opcode == 0x6C {
        ExitType::JmpInd { operand: ins.operand }
    } else if ins.opcode == 0x20 {
        ExitType::Jsr { target: ins.operand, return_pc: next }
    } else if ins.opcode == 0x60 {
        ExitType::Rts
    } else if ins.opcode == 0x40 {
        ExitType::Rti
    } else if ins.opcode == 0x00 {
        ExitType::Brk
    } else if writes_tia_reg(ins.opcode, ins.operand, 0x02) {
        ExitType::Wsync { next_pc: next }
    } else {
        ExitType::Fallthrough { next_pc: next }
    }
}

/// A block read correctly out of the ROM: it starts outside the hotspot
/// page, its instructions are the ones decoded at consecutive addresses of
/// its bank, only the last may end a block, and its exit is the one the last
/// instruction calls for (a fall-through into the next block otherwise).
pub open spec fn block_ok(rom: Seq<u8>, scheme: BankScheme, b: BasicBlock) -> bool {
    let ins = b.instructions@;
    &&& b.bank < bank_count(scheme)
    &&& !spec_in_hotspot(b.start_pc)
    &&& ins.len() >= 1
    &&& ins[0].pc == b.start_pc
    &&& forall|i: int|
        0 <= i < ins.len() ==> #[trigger] ins[i] == decoded_at(rom, scheme, b.bank, ins[i].pc)
            && ins[i].size != 0 && !spec_in_hotspot(ins[i].pc)
    &&& forall|i: int|
        0 <= i < ins.len() - 1 ==> #[trigger] ins[i + 1].pc == add16(ins[i].pc, ins[i].size as int)
            && !spec_ends_block(ins[i].opcode, ins[i].operand)
    &&& if spec_ends_block(ins.last().opcode, ins.last().operand) {
        b.exit_type == spec_exit_of(ins.last())
    } else {
        b.exit_type == (ExitType::Fallthrough { next_pc: add16(ins.last().pc, ins.last().size as int) })
    }
}

/// Position of a (bank, address) pair in the order blocks are listed: by
/// bank, then by offset in the 4K window, then by mirror.
pub open spec fn list_key(bank: usize, pc: u16) -> int {
    bank * 65536 + (pc % 4096) * 16 + pc / 4096
}

/// Target of a relative branch with offset byte `off` from `next`.
fn branch_target(next: u16, off: u8) -> (r: u16)
    ensures
        r == add16(next, signed_offset(off)),
{
    if off < 128 {
        next.wrapping_add(off as u16)
    } else {
        next.wrapping_sub(256 - off as u16)
    }
}

/// The exit a block gets when `ins` is its last instruction, if `ins` ends one.
fn block_exit(ins: DecodedInstr) -> (r: Option<ExitType>)
    ensures
        r == if spec_ends_block(ins.opcode, ins.operand) {
            Some(spec_exit_of(ins))
        } else {
            None
        },
{
    let opcode = ins.opcode;
    let operand = ins.operand;
    let next_pc = ins.pc.wrapping_add(ins.size as u16);
    if is_branch(opcode) {
        let taken = branch_target(next_pc, operand as u8);
        Some(ExitType::Branch { taken_pc: taken, not_taken_pc: next_pc })
    } else if opcode == 0x4C {
        Some(ExitType::JmpAbs { target: operand })
    } else if opcode == 0x6C {
        Some(ExitType::JmpInd { operand })
    } else if opcode == 0x20 {
        Some(ExitType::Jsr { target: operand, return_pc: next_pc })
    } else if opcode == 0x60 {
        Some(ExitType::Rts)
    } else if opcode == 0x40 {
        Some(ExitType::Rti)
    } else if opcode == 0x00 {
        Some(ExitType::Brk)
    } else if is_frame_sync_write(opcode, operand) {
        // WSYNC sets the halt flag; VSYNC affects the frame boundary.
        // Both need the frame loop to check state between blocks.
        if is_wsync_write(opcode, operand) {
            Some(ExitType::Wsync { next_pc })
        } else {
            Some(ExitType::Fallthrough { next_pc })
        }
    } else if is_tia_position_write(opcode, operand) {
        // Position write is a single-instruction block
        Some(ExitType::Fallthrough { next_pc })
    } else {
        None
    }
}

// ============================================================
// Which addresses start blocks
// ============================================================

/// Index of `pc` of `bank` in the flat per-bank maps of the walk.
pub open spec fn start_key(bank: usize, pc: u16) -> int {
    bank * 65536 + pc
}

/// The interrupt vector stored at `addr`, read from the last bank.
pub open spec fn vector_at(rom: Seq<u8>, scheme: BankScheme, addr: u16) -> u16 {
    let lb = (bank_count(scheme) - 1) as usize;
    word(spec_rom_byte(rom, scheme, lb, addr), spec_rom_byte(rom, scheme, lb, add16(addr, 1)))
}

/// An address the walk can decode: outside the hotspot page, holding an
/// opcode the CPU executes.
pub open spec fn walkable(rom: Seq<u8>, scheme: BankScheme, bank: usize, pc: u16) -> bool {
    !spec_in_hotspot(pc) && decoded_at(rom, scheme, bank, pc).size != 0
}

/// Opcodes after which the walk does not go on to the next address:
/// branches, jumps, calls, returns and BRK.
pub open spec fn transfers_control(opcode: u8) -> bool {
    is_branch_opcode(opcode) || opcode == 0x4C || opcode == 0x6C || opcode == 0x20 || opcode == 0x60
        || opcode == 0x40 || opcode == 0x00
}

/// Where the walk goes after the instruction at `pc`, if it goes on: past a
/// position write (unless into the hotspot page), past a frame-sync write,
/// and past any instruction that does not transfer control.
pub open spec fn walk_next(rom: Seq<u8>, scheme: BankScheme, bank: usize, pc: u16) -> Option<u16> {
    let ins = decoded_at(rom, scheme, bank, pc);
    let nxt = add16(pc, ins.size as int);
    if spec_tia_position_write(ins.opcode, ins.operand) {
        if spec_in_hotspot(nxt) {
            None
        } else {
            Some(nxt)
        }
    } else if spec_frame_sync_write(ins.opcode, ins.operand) {
        Some(nxt)
    } else if transfers_control(ins.opcode) {
        None
    } else {
        Some(nxt)
    }
}

/// The instruction at `pc` hands `t` to a walk of its own: both ways of a
/// branch, the target of JMP, the target and return address of JSR, the
/// return address of BRK.
pub open spec fn queues(rom: Seq<u8>, scheme: BankScheme, bank: usize, pc: u16, t: u16) -> bool {
    let ins = decoded_at(rom, scheme, bank, pc);
    let nxt = add16(pc, ins.size as int);
    &&& !spec_tia_position_write(ins.opcode, ins.operand)
    &&& !spec_frame_sync_write(ins.opcode, ins.operand)
    &&& {
        ||| is_branch_opcode(ins.opcode) && (t == add16(nxt, signed_offset(ins.operand as u8)) || t
            == nxt)
        ||| ins.opcode == 0x4C && t == ins.operand
        ||| ins.opcode == 0x20 && (t == ins.operand || t == nxt)
        ||| ins.opcode == 0x00 && t == add16(nxt, 1)
    }
}

/// The instruction at `pc` marks `t` as a block start without a walk of its
/// own: a position write is a block of its own, and a frame-sync write ends
/// its block.
pub open spec fn marks(rom: Seq<u8>, scheme: BankScheme, bank: usize, pc: u16, t: u16) -> bool {
    let ins = decoded_at(rom, scheme, bank, pc);
    let nxt = add16(pc, ins.size as int);
    if spec_tia_position_write(ins.opcode, ins.operand) {
        t == pc || t == nxt
    } else {
        spec_frame_sync_write(ins.opcode, ins.operand) && t == nxt
    }
}

/// `t` of `bank` is visited and a start, unless it lies in the hotspot page.
pub open spec fn seeded(v: Set<int>, s: Set<int>, bank: usize, t: u16) -> bool {
    !spec_in_hotspot(t) ==> v.contains(start_key(bank, t)) && s.contains(start_key(bank, t))
}

/// The visited set `v` and start set `s` are closed under the walk's step
/// from the instruction at `pc`.
pub open spec fn closed_at(
    rom: Seq<u8>,
    scheme: BankScheme,
    v: Set<int>,
    s: Set<int>,
    bank: usize,
    pc: u16,
) -> bool {
    &&& (walk_next(rom, scheme, bank, pc) matches Some(n) ==> v.contains(start_key(bank, n)))
    &&& forall|t: u16| #[trigger] queues(rom, scheme, bank, pc, t) ==> seeded(v, s, bank, t)
    &&& forall|t: u16|
        #[trigger] marks(rom, scheme, bank, pc, t) && !spec_in_hotspot(t) ==> s.contains(
            start_key(bank, t),
        )
}

/// Visited addresses `v` and block starts `s` that contain the interrupt
/// vectors of the last bank and are closed under every step of the walk.
pub open spec fn walk_closed(rom: Seq<u8>, scheme: BankScheme, v: Set<int>, s: Set<int>) -> bool {
    let lb = (bank_count(scheme) - 1) as usize;
    &&& seeded(v, s, lb, vector_at(rom, scheme, 0xFFFC))
    &&& seeded(v, s, lb, vector_at(rom, scheme, 0xFFFA))
    &&& seeded(v, s, lb, vector_at(rom, scheme, 0xFFFE))
    &&& forall|b: usize, pc: u16|
        b < bank_count(scheme) && #[trigger] v.contains(start_key(b, pc)) && walkable(
            rom,
            scheme,
            b,
            pc,
        ) ==> closed_at(rom, scheme, v, s, b, pc)
}

/// The block starts of a ROM: the least set that the walk from the
/// interrupt vectors produces (the keys that every closed start set holds).
pub open spec fn block_start_set(rom: Seq<u8>, scheme: BankScheme) -> Set<int> {
    Set::new(
        |k: int|
            forall|v: Set<int>, s: Set<int>| #[trigger] walk_closed(rom, scheme, v, s) ==> s.contains(
                k,
            ),
    )
}

// ------------------------------------------------------------
// What the walk has recorded so far
// ------------------------------------------------------------

/// Everything recorded lies in every closed pair of sets.
spec fn walk_sound(
    rom: Seq<u8>,
    scheme: BankScheme,
    seen: Set<int>,
    starts: Seq<bool>,
    wl: Seq<(usize, u16)>,
) -> bool {
    forall|v: Set<int>, s: Set<int>|
        #[trigger] walk_closed(rom, scheme, v, s) ==> {
            &&& seen.subset_of(v)
            &&& forall|k: int| 0 <= k < starts.len() && #[trigger] starts[k] ==> s.contains(k)
            &&& forall|i: int|
                0 <= i < wl.len() ==> v.contains(start_key(#[trigger] wl[i].0, wl[i].1))
        }
}

/// `(bank, t)` has been put on the worklist.
spec fn queued(wl: Seq<(usize, u16)>, bank: usize, t: u16) -> bool {
    exists|i: int| 0 <= i < wl.len() && #[trigger] wl[i] == (bank, t)
}

/// The targets and marks of the instruction at `pc` are recorded.
spec fn targets_done(
    rom: Seq<u8>,
    scheme: BankScheme,
    starts: Seq<bool>,
    wl: Seq<(usize, u16)>,
    bank: usize,
    pc: u16,
) -> bool {
    &&& forall|t: u16|
        #[trigger] queues(rom, scheme, bank, pc, t) && !spec_in_hotspot(t) ==> starts[start_key(
            bank,
            t,
        )] && queued(wl, bank, t)
    &&& forall|t: u16|
        #[trigger] marks(rom, scheme, bank, pc, t) && !spec_in_hotspot(t) ==> starts[start_key(
            bank,
            t,
        )]
}

/// The step from the instruction at `pc` is fully recorded.
spec fn done_at(
    rom: Seq<u8>,
    scheme: BankScheme,
    seen: Set<int>,
    starts: Seq<bool>,
    wl: Seq<(usize, u16)>,
    bank: usize,
    pc: u16,
) -> bool {
    &&& (walk_next(rom, scheme, bank, pc) matches Some(n) ==> seen.contains(start_key(bank, n)))
    &&& targets_done(rom, scheme, starts, wl, bank, pc)
}

/// Every visited address but `pend` has its step fully recorded.
spec fn walk_done(
    rom: Seq<u8>,
    scheme: BankScheme,
    seen: Set<int>,
    starts: Seq<bool>,
    wl: Seq<(usize, u16)>,
    pend: int,
) -> bool {
    forall|b: usize, pc: u16|
        b < bank_count(scheme) && #[trigger] seen.contains(start_key(b, pc)) && walkable(
            rom,
            scheme,
            b,
            pc,
        ) && start_key(b, pc) != pend ==> done_at(rom, scheme, seen, starts, wl, b, pc)
}

/// Recording more keeps recorded steps recorded.
proof fn lemma_walk_done_grows(
    rom: Seq<u8>,
    scheme: BankScheme,
    seen: Set<int>,
    starts: Seq<bool>,
    wl: Seq<(usize, u16)>,
    seen2: Set<int>,
    starts2: Seq<bool>,
    wl2: Seq<(usize, u16)>,
    pend: int,
)
    requires
        walk_done(rom, scheme, seen, starts, wl, pend),
        seen.subset_of(seen2),
        starts.len() == starts2.len(),
        forall|k: int| 0 <= k < starts.len() && starts[k] ==> starts2[k],
        wl.len() <= wl2.len(),
        forall|i: int| 0 <= i < wl.len() ==> wl2[i] == wl[i],
        starts.len() == bank_count(scheme) * 65536,
    ensures
        forall|b: usize, pc: u16|
            b < bank_count(scheme) && #[trigger] seen.contains(start_key(b, pc)) && walkable(
                rom,
                scheme,
                b,
                pc,
            ) && start_key(b, pc) != pend ==> done_at(rom, scheme, seen2, starts2, wl2, b, pc),
{
    assert forall|b: usize, pc: u16|
        b < bank_count(scheme) && #[trigger] seen.contains(start_key(b, pc)) && walkable(
            rom,
            scheme,
            b,
            pc,
        ) && start_key(b, pc) != pend implies done_at(rom, scheme, seen2, starts2, wl2, b, pc) by {
        assert(done_at(rom, scheme, seen, starts, wl, b, pc));
        assert forall|t: u16|
            #[trigger] queues(rom, scheme, b, pc, t) && !spec_in_hotspot(t) implies starts2[start_key(
                b,
                t,
            )] && queued(wl2, b, t) by {
            let i = choose|i: int| 0 <= i < wl.len() && #[trigger] wl[i] == (b, t);
            assert(wl2[i] == (b, t));
        }
    }
}

/// A vector of `n` cleared flags.
fn cleared(n: usize) -> (r: Vec<bool>)
    ensures
        r@.len() == n,
        forall|i: int| 0 <= i < n ==> !r@[i],
{
    let mut v: Vec<bool> = Vec::new();
    let mut i: usize = 0;
    while i < n
        invariant
            i <= n,
            v@.len() == i,
            forall|k: int| 0 <= k < i ==> !v@[k],
        decreases n - i,
    {
        v.push(false);
        i = i + 1;
    }
    v
}

/// Index of a (bank, address) pair in the flag vectors.
fn slot(bank: usize, pc: u16) -> (r: usize)
    requires
        bank < 8,
    ensures
        r == bank * 65536 + pc,
{
    bank * 65536 + pc as usize
}

/// Walking forward inside a 4K window: an instruction of 1–3 bytes that
/// starts below the hotspot page ends inside the same window.
pub proof fn lemma_window_step(pc: u16, size: u8)
    requires
        pc & 0x0FFF < 0x0FF4,
        1 <= size <= 3,
    ensures
        add16(pc, size as int) & 0x0FFF == (pc & 0x0FFF) + size,
        add16(pc, size as int) % 4096 == pc % 4096 + size,
        add16(pc, size as int) / 4096 == pc / 4096,
{
    let n = add16(pc, size as int);
    assert(n == ((pc + size) % 0x10000) as u16);
    assert(pc & 0x0FFF < 0x0FF4 && 1 <= size <= 3 && n == ((pc + size) % 0x10000) as u16 ==> n
        & 0x0FFF == (pc & 0x0FFF) + size && n % 4096 == pc % 4096 + size && n / 4096 == pc / 4096)
        by (bit_vector);
}

/// Mark `pc` of `bank` as a block start and queue it, unless it lies in the
/// hotspot page.
fn add_start(starts: &mut Vec<bool>, worklist: &mut Vec<(usize, u16)>, banks: usize, bank: usize, pc: u16)
    requires
        old(starts)@.len() == banks * 65536,
        banks <= 8,
        bank < banks,
        forall|k: int| 0 <= k < old(worklist)@.len() ==> (#[trigger] old(worklist)@[k]).0 < banks,
    ensures
        final(starts)@.len() == banks * 65536,
        forall|k: int| 0 <= k < final(worklist)@.len() ==> (#[trigger] final(worklist)@[k]).0 < banks,
        !spec_in_hotspot(pc) ==> final(starts)@ == old(starts)@.update(start_key(bank, pc), true)
            && final(worklist)@ == old(worklist)@.push((bank, pc)),
        spec_in_hotspot(pc) ==> final(starts)@ == old(starts)@ && final(worklist)@ == old(
            worklist,
        )@,
{
    if !in_hotspot_region(pc) {
        starts.set(slot(bank, pc), true);
        worklist.push((bank, pc));
    }
}


/// The instructions and exit of the block that starts at `start` of `bank`,
/// read on from `pc` given the set of block starts: up to and including the
/// first instruction that ends a block, or up to the next block start.
/// `None` when the read runs into the hotspot page or an opcode the CPU does
/// not execute first.
pub open spec fn block_rest(
    rom: Seq<u8>,
    scheme: BankScheme,
    starts: Set<int>,
    bank: usize,
    start: u16,
    pc: u16,
) -> Option<(Seq<DecodedInstr>, ExitType)>
    decreases 4096 - pc % 4096,
{
    if spec_in_hotspot(pc) {
        None
    } else {
        let ins = decoded_at(rom, scheme, bank, pc);
        if ins.size == 0 {
            None
        } else if pc != start && starts.contains(start_key(bank, pc)) {
            Some((Seq::empty(), ExitType::Fallthrough { next_pc: pc }))
        } else if spec_ends_block(ins.opcode, ins.operand) {
            Some((seq![ins], spec_exit_of(ins)))
        } else {
            proof {
                lemma_tables_small(ins.opcode);
                lemma_window_step(pc, ins.size);
            }
            match block_rest(rom, scheme, starts, bank, start, add16(pc, ins.size as int)) {
                Some((rest, e)) => Some((seq![ins] + rest, e)),
                None => None,
            }
        }
    }
}

/// The block of the ROM that starts at `start` of `bank`, if it can be read.
pub open spec fn block_at(rom: Seq<u8>, scheme: BankScheme, bank: usize, start: u16) -> Option<
    (Seq<DecodedInstr>, ExitType),
> {
    block_rest(rom, scheme, block_start_set(rom, scheme), bank, start, start)
}

/// A block as plain values: bank, start, instructions, exit.
pub open spec fn block_view(b: BasicBlock) -> (usize, u16, Seq<DecodedInstr>, ExitType) {
    (b.bank, b.start_pc, b.instructions@, b.exit_type)
}

/// Instructions `acc` in front of a block's remaining instructions.
pub open spec fn prepend(acc: Seq<DecodedInstr>, r: Option<(Seq<DecodedInstr>, ExitType)>) -> Option<
    (Seq<DecodedInstr>, ExitType),
> {
    match r {
        Some((rest, e)) => Some((acc + rest, e)),
        None => None,
    }
}

/// The bank and address at listing position `q`: bank, then offset in the
/// 4K window, then mirror.
pub open spec fn listed_at(q: int) -> (usize, u16) {
    ((q / 65536) as usize, ((q % 16) * 4096 + (q % 65536) / 16) as u16)
}

/// The block listed at position `q`, if there is one: its address must be a
/// block start outside the hotspot page, and its block must be readable.
pub open spec fn block_listed_at(rom: Seq<u8>, scheme: BankScheme, q: int) -> Seq<
    (usize, u16, Seq<DecodedInstr>, ExitType),
> {
    let (bank, pc) = listed_at(q);
    if block_start_set(rom, scheme).contains(start_key(bank, pc)) && !spec_in_hotspot(pc) {
        match block_at(rom, scheme, bank, pc) {
            Some((ins, e)) => seq![(bank, pc, ins, e)],
            None => Seq::empty(),
        }
    } else {
        Seq::empty()
    }
}

/// The blocks listed before position `p`.
pub open spec fn blocks_below(rom: Seq<u8>, scheme: BankScheme, p: nat) -> Seq<
    (usize, u16, Seq<DecodedInstr>, ExitType),
>
    decreases p,
{
    if p == 0 {
        Seq::empty()
    } else {
        blocks_below(rom, scheme, (p - 1) as nat) + block_listed_at(rom, scheme, p - 1)
    }
}

/// Every readable block that starts at one of the ROM's block starts, by
/// bank, then offset in the 4K window, then mirror.
pub open spec fn discovered_blocks(rom: Seq<u8>, scheme: BankScheme) -> Seq<
    (usize, u16, Seq<DecodedInstr>, ExitType),
> {
    blocks_below(rom, scheme, (bank_count(scheme) * 65536) as nat)
}

/// A block listed at an earlier position stays in the listing.
proof fn lemma_blocks_below_keeps(rom: Seq<u8>, scheme: BankScheme, p: nat, q: int)
    requires
        0 <= q < p,
        block_listed_at(rom, scheme, q).len() > 0,
    ensures
        exists|i: int|
            0 <= i < blocks_below(rom, scheme, p).len() && #[trigger] blocks_below(rom, scheme, p)[i]
                == block_listed_at(rom, scheme, q)[0],
    decreases p,
{
    let prev = blocks_below(rom, scheme, (p - 1) as nat);
    let cur = blocks_below(rom, scheme, p);
    assert(cur == prev + block_listed_at(rom, scheme, p - 1));
    if q == p - 1 {
        assert(cur[prev.len() as int] == block_listed_at(rom, scheme, q)[0]);
    } else {
        lemma_blocks_below_keeps(rom, scheme, (p - 1) as nat, q);
        let i = choose|i: int|
            0 <= i < prev.len() && #[trigger] prev[i] == block_listed_at(rom, scheme, q)[0];
        assert(cur[i] == prev[i]);
    }
}

/// The block at the reset vector is always found: when the vector lies
/// outside the hotspot page and its block can be read, the discovered
/// blocks list it.
pub proof fn lemma_reset_block_found(rom: Seq<u8>, scheme: BankScheme)
    requires
        !spec_in_hotspot(vector_at(rom, scheme, 0xFFFC)),
        block_at(rom, scheme, (bank_count(scheme) - 1) as usize, vector_at(rom, scheme, 0xFFFC)) is Some,
    ensures
        ({
            let lb = (bank_count(scheme) - 1) as usize;
            let v = vector_at(rom, scheme, 0xFFFC);
            let (ins, e) = block_at(rom, scheme, lb, v)->0;
            exists|i: int|
                0 <= i < discovered_blocks(rom, scheme).len() && #[trigger] discovered_blocks(
                    rom,
                    scheme,
                )[i] == (lb, v, ins, e)
        }),
{
    let lb = (bank_count(scheme) - 1) as usize;
    let v = vector_at(rom, scheme, 0xFFFC);
    let (ins, e) = block_at(rom, scheme, lb, v)->0;
    assert(block_start_set(rom, scheme).contains(start_key(lb, v)));
    let q: int = lb * 65536 + (v % 4096) * 16 + v / 4096;
    assert(q / 65536 == lb && q % 16 == v / 4096 && (q % 65536) / 16 == v % 4096) by (
    nonlinear_arith)
        requires
            q == lb * 65536 + (v % 4096) * 16 + v / 4096,
            0 <= v < 65536,
            lb < 8,
    ;
    assert((v / 4096) * 4096 + v % 4096 == v) by (nonlinear_arith)
        requires
            0 <= v < 65536,
    ;
    assert(listed_at(q) == (lb, v));
    assert(block_listed_at(rom, scheme, q) == seq![(lb, v, ins, e)]);
    assert(q < bank_count(scheme) * 65536) by (nonlinear_arith)
        requires
            q == lb * 65536 + (v % 4096) * 16 + v / 4096,
            lb == bank_count(scheme) - 1,
            bank_count(scheme) >= 1,
            0 <= v < 65536,
    ;
    let p = (bank_count(scheme) * 65536) as nat;
    lemma_blocks_below_keeps(rom, scheme, p, q);
    let i = choose|i: int|
        0 <= i < blocks_below(rom, scheme, p).len() && #[trigger] blocks_below(rom, scheme, p)[i]
            == block_listed_at(rom, scheme, q)[0];
    assert(block_listed_at(rom, scheme, q)[0] == (lb, v, ins, e));
    assert(discovered_blocks(rom, scheme)[i] == (lb, v, ins, e));
}

/// Read the block that starts at `start_pc` of `bank`: instructions up to and
/// including the first one that ends a block, or up to the next block start
/// in `starts`. `None` when the walk runs into the hotspot page or an opcode
/// the CPU does not execute first.
fn build_block(
    rom: &[u8],
    scheme: BankScheme,
    starts: &Vec<bool>,
    banks: usize,
    bank: usize,
    start_pc: u16,
) -> (r: Option<BasicBlock>)
    requires
        rom_readable(rom@, scheme, bank),
        banks == bank_count(scheme),
        bank < banks,
        starts@.len() == banks * 65536,
        forall|k: int|
            0 <= k < starts@.len() ==> (starts@[k] <==> block_start_set(rom@, scheme).contains(k)),
        !spec_in_hotspot(start_pc),
    ensures
        r matches Some(b) ==> block_ok(rom@, scheme, b) && b.bank == bank && b.start_pc == start_pc,
        (match r {
            Some(b) => Some((b.instructions@, b.exit_type)),
            None => None,
        }) == block_at(rom@, scheme, bank, start_pc),
{
    let mut instrs: Vec<DecodedInstr> = Vec::new();
    let mut pc = start_pc;
    let ghost ss = block_start_set(rom@, scheme);
    proof {
        match block_rest(rom@, scheme, ss, bank, start_pc, start_pc) {
            Some((rest, e)) => {
                assert(instrs@ + rest =~= rest);
            },
            None => {},
        }
    }
    loop
        invariant
            ss == block_start_set(rom@, scheme),
            forall|k: int| 0 <= k < starts@.len() ==> (starts@[k] <==> ss.contains(k)),
            block_at(rom@, scheme, bank, start_pc) == prepend(
                instrs@,
                block_rest(rom@, scheme, ss, bank, start_pc, pc),
            ),
            rom_readable(rom@, scheme, bank),
            banks == bank_count(scheme),
            bank < banks,
            banks <= 8,
            starts@.len() == banks * 65536,
            !spec_in_hotspot(start_pc),
            instrs@.len() == 0 ==> pc == start_pc,
            instrs@.len() > 0 ==> {
                &&& instrs@[0].pc == start_pc
                &&& pc == add16(instrs@.last().pc, instrs@.last().size as int)
                &&& pc % 4096 > start_pc % 4096
            },
            forall|i: int|
                0 <= i < instrs@.len() ==> #[trigger] instrs@[i] == decoded_at(
                    rom@,
                    scheme,
                    bank,
                    instrs@[i].pc,
                ) && instrs@[i].size != 0 && !spec_in_hotspot(instrs@[i].pc),
            forall|i: int|
                0 <= i < instrs@.len() - 1 ==> #[trigger] instrs@[i + 1].pc == add16(
                    instrs@[i].pc,
                    instrs@[i].size as int,
                ) && !spec_ends_block(instrs@[i].opcode, instrs@[i].operand),
            instrs@.len() > 0 ==> !spec_ends_block(instrs@.last().opcode, instrs@.last().operand),
        decreases 0x1000 - pc % 4096,
    {
        if in_hotspot_region(pc) {
            return None;
        }
        let opcode = rom_byte(rom, scheme, bank, pc);
        let size = SIZE_TABLE[opcode as usize];
        if size == 0 {
            return None;
        }
        let operand = read_operand(rom, scheme, bank, pc, size);
        let cycles = CYCLE_TABLE[opcode as usize];
        let next_pc = pc.wrapping_add(size as u16);
        proof {
            lemma_tables_small(opcode);
            lemma_window_step(pc, size);
            assert(pc & 0x0FFF == pc % 4096) by (bit_vector);
        }
        // If this address is a different block's start (not our first
        // instruction), stop
        proof {
            assert(decoded_at(rom@, scheme, bank, pc) == DecodedInstr { pc, opcode, operand, size, cycles });
        }
        if pc != start_pc && starts[slot(bank, pc)] {
            proof {
                assert(instrs@ + Seq::<DecodedInstr>::empty() =~= instrs@);
            }
            return Some(
                BasicBlock {
                    start_pc,
                    bank,
                    instructions: instrs,
                    exit_type: ExitType::Fallthrough { next_pc: pc },
                },
            );
        }
        let instr = DecodedInstr { pc, opcode, operand, size, cycles };
        let ghost before = instrs@;
        instrs.push(instr);
        proof {
            assert(instrs@ == before.push(instr));
            assert forall|i: int| 0 <= i < instrs@.len() - 1 implies #[trigger] instrs@[i + 1].pc
                == add16(instrs@[i].pc, instrs@[i].size as int) && !spec_ends_block(
                instrs@[i].opcode,
                instrs@[i].operand,
            ) by {
                if i < before.len() - 1 {
                    assert(before[i + 1] == instrs@[i + 1]);
                }
            }
        }
        // Check for block-ending opcodes
        match block_exit(instr) {
            Some(exit_type) => {
                proof {
                    assert(before + seq![instr] =~= instrs@);
                }
                return Some(BasicBlock { start_pc, bank, instructions: instrs, exit_type });
            },
            None => {
                proof {
                    match block_rest(rom@, scheme, ss, bank, start_pc, next_pc) {
                        Some((rest, e)) => {
                            assert(before + (seq![instr] + rest) =~= instrs@ + rest);
                        },
                        None => {},
                    }
                }
                pc = next_pc;
            },
        }
    }
}


/// Blocks listed in strictly increasing (bank, window offset, mirror) order.
pub open spec fn listed_in_order(blocks: Seq<BasicBlock>) -> bool {
    forall|i: int, j: int|
        0 <= i < j < blocks.len() ==> list_key(blocks[i].bank, blocks[i].start_pc) < list_key(
            blocks[j].bank,
            blocks[j].start_pc,
        )
}

/// Listing order sorts by block identifier and never repeats a start.
proof fn lemma_list_key_order(b1: usize, p1: u16, b2: usize, p2: u16)
    requires
        list_key(b1, p1) < list_key(b2, p2),
        b1 < 8,
        b2 < 8,
    ensures
        spec_block_id(b1, p1) <= spec_block_id(b2, p2),
        (b1, p1) != (b2, p2),
{
    assert(p1 / 4096 < 16 && p2 / 4096 < 16);
}

/// The step from the instruction at `pc` is justified: every closed pair of
/// sets that visits `pc` is closed at `pc`.
proof fn lemma_step_justified(rom: Seq<u8>, scheme: BankScheme, bank: usize, pc: u16)
    requires
        bank < bank_count(scheme),
        walkable(rom, scheme, bank, pc),
        forall|v: Set<int>, s: Set<int>|
            #[trigger] walk_closed(rom, scheme, v, s) ==> v.contains(start_key(bank, pc)),
    ensures
        forall|v: Set<int>, s: Set<int>|
            #[trigger] walk_closed(rom, scheme, v, s) ==> closed_at(rom, scheme, v, s, bank, pc),
{
    assert forall|v: Set<int>, s: Set<int>| #[trigger] walk_closed(rom, scheme, v, s) implies closed_at(
        rom,
        scheme,
        v,
        s,
        bank,
        pc,
    ) by {
        assert(v.contains(start_key(bank, pc)));
    }
}

/// A justified start may be marked.
proof fn lemma_sound_mark(
    rom: Seq<u8>,
    scheme: BankScheme,
    seen: Set<int>,
    starts: Seq<bool>,
    wl: Seq<(usize, u16)>,
    k: int,
)
    requires
        walk_sound(rom, scheme, seen, starts, wl),
        0 <= k < starts.len(),
        forall|v: Set<int>, s: Set<int>| #[trigger] walk_closed(rom, scheme, v, s) ==> s.contains(k),
    ensures
        walk_sound(rom, scheme, seen, starts.update(k, true), wl),
{
    let st = starts.update(k, true);
    assert forall|v: Set<int>, s: Set<int>| #[trigger] walk_closed(rom, scheme, v, s) implies {
        &&& seen.subset_of(v)
        &&& forall|j: int| 0 <= j < st.len() && #[trigger] st[j] ==> s.contains(j)
        &&& forall|i: int| 0 <= i < wl.len() ==> v.contains(start_key(#[trigger] wl[i].0, wl[i].1))
    } by {
        assert forall|j: int| 0 <= j < st.len() && #[trigger] st[j] implies s.contains(j) by {
            if j != k {
                assert(starts[j]);
            }
        }
    }
}

/// A justified address may be marked and queued.
proof fn lemma_sound_queue(
    rom: Seq<u8>,
    scheme: BankScheme,
    seen: Set<int>,
    starts: Seq<bool>,
    wl: Seq<(usize, u16)>,
    bank: usize,
    t: u16,
)
    requires
        walk_sound(rom, scheme, seen, starts, wl),
        0 <= start_key(bank, t) < starts.len(),
        forall|v: Set<int>, s: Set<int>|
            #[trigger] walk_closed(rom, scheme, v, s) ==> v.contains(start_key(bank, t))
                && s.contains(start_key(bank, t)),
    ensures
        walk_sound(rom, scheme, seen, starts.update(start_key(bank, t), true), wl.push((bank, t))),
{
    let st = starts.update(start_key(bank, t), true);
    let w2 = wl.push((bank, t));
    assert forall|v: Set<int>, s: Set<int>| #[trigger] walk_closed(rom, scheme, v, s) implies {
        &&& seen.subset_of(v)
        &&& forall|j: int| 0 <= j < st.len() && #[trigger] st[j] ==> s.contains(j)
        &&& forall|i: int| 0 <= i < w2.len() ==> v.contains(start_key(#[trigger] w2[i].0, w2[i].1))
    } by {
        assert forall|j: int| 0 <= j < st.len() && #[trigger] st[j] implies s.contains(j) by {
            if j != start_key(bank, t) {
                assert(starts[j]);
            }
        }
        assert forall|i: int| 0 <= i < w2.len() implies v.contains(
            start_key(#[trigger] w2[i].0, w2[i].1),
        ) by {
            if i < wl.len() {
                assert(w2[i] == wl[i]);
            }
        }
    }
}

/// A queued address stays queued when more is queued.
proof fn lemma_queued_grows(wl: Seq<(usize, u16)>, wl2: Seq<(usize, u16)>, bank: usize, t: u16)
    requires
        queued(wl, bank, t),
        wl.len() <= wl2.len(),
        forall|i: int| 0 <= i < wl.len() ==> wl2[i] == wl[i],
    ensures
        queued(wl2, bank, t),
{
    let i = choose|i: int| 0 <= i < wl.len() && #[trigger] wl[i] == (bank, t);
    assert(wl2[i] == (bank, t));
}

/// Visiting `pc` completes the step that led to it and leaves `pc` pending.
proof fn lemma_visit(
    r: Seq<u8>,
    scheme: BankScheme,
    seen: Set<int>,
    starts: Seq<bool>,
    wl: Seq<(usize, u16)>,
    has_prev: bool,
    prev: u16,
    bank: usize,
    pc: u16,
)
    requires
        bank < bank_count(scheme),
        starts.len() == bank_count(scheme) * 65536,
        walk_done(r, scheme, seen, starts, wl, if has_prev {
            start_key(bank, prev)
        } else {
            -1
        }),
        has_prev ==> seen.contains(start_key(bank, prev)) && walkable(r, scheme, bank, prev)
            && walk_next(r, scheme, bank, prev) == Some(pc) && targets_done(
            r,
            scheme,
            starts,
            wl,
            bank,
            prev,
        ),
        walk_sound(r, scheme, seen, starts, wl),
        forall|v: Set<int>, s: Set<int>|
            #[trigger] walk_closed(r, scheme, v, s) ==> v.contains(start_key(bank, pc)),
    ensures
        walk_done(r, scheme, seen.insert(start_key(bank, pc)), starts, wl, start_key(bank, pc)),
        walk_sound(r, scheme, seen.insert(start_key(bank, pc)), starts, wl),
{
    let pend = if has_prev {
        start_key(bank, prev)
    } else {
        -1
    };
    let seen2 = seen.insert(start_key(bank, pc));
    lemma_walk_done_grows(r, scheme, seen, starts, wl, seen2, starts, wl, pend);
    assert forall|b: usize, p: u16|
        b < bank_count(scheme) && #[trigger] seen2.contains(start_key(b, p)) && walkable(
            r,
            scheme,
            b,
            p,
        ) && start_key(b, p) != start_key(bank, pc) implies done_at(
        r,
        scheme,
        seen2,
        starts,
        wl,
        b,
        p,
    ) by {
        assert(seen.contains(start_key(b, p)));
        if has_prev && start_key(b, p) == pend {
            assert(b == bank && p == prev) by (nonlinear_arith)
                requires
                    b * 65536 + p == bank * 65536 + prev,
                    p < 65536,
                    prev < 65536,
            ;
        }
    }
    assert forall|v: Set<int>, s: Set<int>| #[trigger] walk_closed(r, scheme, v, s) implies {
        &&& seen2.subset_of(v)
        &&& forall|k: int| 0 <= k < starts.len() && #[trigger] starts[k] ==> s.contains(k)
        &&& forall|i: int| 0 <= i < wl.len() ==> v.contains(start_key(#[trigger] wl[i].0, wl[i].1))
    } by {
        assert(seen.subset_of(v));
        assert(v.contains(start_key(bank, pc)));
    }
}

/// Completing the pending step leaves every step recorded.
proof fn lemma_close_pending(
    r: Seq<u8>,
    scheme: BankScheme,
    seen: Set<int>,
    starts: Seq<bool>,
    wl: Seq<(usize, u16)>,
    bank: usize,
    pc: u16,
)
    requires
        walk_done(r, scheme, seen, starts, wl, start_key(bank, pc)),
        walkable(r, scheme, bank, pc) ==> done_at(r, scheme, seen, starts, wl, bank, pc),
    ensures
        walk_done(r, scheme, seen, starts, wl, -1),
{
    assert forall|b: usize, p: u16|
        b < bank_count(scheme) && #[trigger] seen.contains(start_key(b, p)) && walkable(
            r,
            scheme,
            b,
            p,
        ) && start_key(b, p) != -1 implies done_at(r, scheme, seen, starts, wl, b, p) by {
        if start_key(b, p) == start_key(bank, pc) {
            assert(b == bank && p == pc) by (nonlinear_arith)
                requires
                    b * 65536 + p == bank * 65536 + pc,
                    p < 65536,
                    pc < 65536,
            ;
        }
    }
}

/// One step of the walk at `pc` (already visited): record the starts and
/// queued targets of its instruction, and say where the walk goes on.
#[verifier::spinoff_prover]
#[verifier::rlimit(40)]
fn walk_step(
    rom: &[u8],
    scheme: BankScheme,
    banks: usize,
    bank: usize,
    pc: u16,
    block_starts: &mut Vec<bool>,
    worklist: &mut Vec<(usize, u16)>,
    Ghost(seen): Ghost<Set<int>>,
) -> (step: Option<u16>)
    requires
        scheme == BankScheme::Fixed ==> rom@.len() > 0,
        banks == bank_count(scheme),
        banks <= 8,
        bank < banks,
        old(block_starts)@.len() == banks * 65536,
        forall|k: int| 0 <= k < old(worklist)@.len() ==> (#[trigger] old(worklist)@[k]).0 < banks,
        walk_sound(rom@, scheme, seen, old(block_starts)@, old(worklist)@),
        forall|v: Set<int>, s: Set<int>|
            #[trigger] walk_closed(rom@, scheme, v, s) ==> v.contains(start_key(bank, pc)),
    ensures
        final(block_starts)@.len() == banks * 65536,
        forall|k: int| 0 <= k < final(worklist)@.len() ==> (#[trigger] final(worklist)@[k]).0 < banks,
        forall|k: int| 0 <= k < old(block_starts)@.len() && old(block_starts)@[k] ==> final(block_starts)@[k],
        old(worklist)@.len() <= final(worklist)@.len(),
        forall|i: int| 0 <= i < old(worklist)@.len() ==> final(worklist)@[i] == old(worklist)@[i],
        walk_sound(rom@, scheme, seen, final(block_starts)@, final(worklist)@),
        step == if walkable(rom@, scheme, bank, pc) {
            walk_next(rom@, scheme, bank, pc)
        } else {
            None
        },
        walkable(rom@, scheme, bank, pc) ==> targets_done(rom@, scheme, final(block_starts)@, final(worklist)@, bank, pc),
        step matches Some(n) ==> forall|v: Set<int>, s: Set<int>|
            #[trigger] walk_closed(rom@, scheme, v, s) ==> v.contains(start_key(bank, n)),
{
    let ghost r = rom@;
    if in_hotspot_region(pc) {
        return None;
    }
    let opcode = rom_byte(rom, scheme, bank, pc);
    let size = SIZE_TABLE[opcode as usize];
    if size == 0 {
        // illegal opcode
        return None;
    }
    let operand = read_operand(rom, scheme, bank, pc, size);
    let next_pc = pc.wrapping_add(size as u16);
    let ghost ins = decoded_at(r, scheme, bank, pc);
    proof {
        assert(ins.opcode == opcode && ins.size == size && ins.operand == operand);
        assert(next_pc == add16(pc, size as int));
        lemma_step_justified(r, scheme, bank, pc);
    }
    let ghost st_a = block_starts@;
    let ghost wl_a = worklist@;
    let sl = slot(bank, pc);
    // TIA position write → split before AND after
    if is_tia_position_write(opcode, operand) {
        block_starts.set(sl, true);
        proof {
            assert(marks(r, scheme, bank, pc, pc));
            lemma_sound_mark(r, scheme, seen, st_a, wl_a, sl as int);
        }
        if !in_hotspot_region(next_pc) {
            let ghost st_b = block_starts@;
            block_starts.set(slot(bank, next_pc), true);
            proof {
                assert(marks(r, scheme, bank, pc, next_pc));
                lemma_sound_mark(r, scheme, seen, st_b, wl_a, start_key(bank, next_pc));
            }
            // Continue walking from next_pc
            return Some(next_pc);
        }
        return None;
    }
    // WSYNC/VSYNC → split after (frame loop checks these between blocks)
    if is_frame_sync_write(opcode, operand) {
        if !in_hotspot_region(next_pc) {
            block_starts.set(slot(bank, next_pc), true);
            proof {
                assert(marks(r, scheme, bank, pc, next_pc));
                lemma_sound_mark(r, scheme, seen, st_a, wl_a, start_key(bank, next_pc));
            }
        }
        return Some(next_pc);
    }
    if is_branch(opcode) {
        let taken = branch_target(next_pc, operand as u8);
        add_start(block_starts, worklist, banks, bank, taken);
        let ghost st_b = block_starts@;
        let ghost wl_b = worklist@;
        proof {
            if !spec_in_hotspot(taken) {
                assert(queues(r, scheme, bank, pc, taken));
                lemma_sound_queue(r, scheme, seen, st_a, wl_a, bank, taken);
                assert(wl_b[wl_a.len() as int] == (bank, taken));
            }
        }
        add_start(block_starts, worklist, banks, bank, next_pc);
        proof {
            if !spec_in_hotspot(next_pc) {
                assert(queues(r, scheme, bank, pc, next_pc));
                lemma_sound_queue(r, scheme, seen, st_b, wl_b, bank, next_pc);
                assert(worklist@[wl_b.len() as int] == (bank, next_pc));
            }
            if !spec_in_hotspot(taken) {
                lemma_queued_grows(wl_b, worklist@, bank, taken);
            }
        }
        None
    } else if opcode == 0x4C {
        // JMP absolute
        add_start(block_starts, worklist, banks, bank, operand);
        proof {
            if !spec_in_hotspot(operand) {
                assert(queues(r, scheme, bank, pc, operand));
                lemma_sound_queue(r, scheme, seen, st_a, wl_a, bank, operand);
                assert(worklist@[wl_a.len() as int] == (bank, operand));
            }
        }
        None
    } else if opcode == 0x6C {
        // JMP indirect: target unknown
        None
    } else if opcode == 0x20 {
        // JSR
        add_start(block_starts, worklist, banks, bank, operand);
        let ghost st_b = block_starts@;
        let ghost wl_b = worklist@;
        proof {
            if !spec_in_hotspot(operand) {
                assert(queues(r, scheme, bank, pc, operand));
                lemma_sound_queue(r, scheme, seen, st_a, wl_a, bank, operand);
                assert(wl_b[wl_a.len() as int] == (bank, operand));
            }
        }
        add_start(block_starts, worklist, banks, bank, next_pc);
        proof {
            if !spec_in_hotspot(next_pc) {
                assert(queues(r, scheme, bank, pc, next_pc));
                lemma_sound_queue(r, scheme, seen, st_b, wl_b, bank, next_pc);
                assert(worklist@[wl_b.len() as int] == (bank, next_pc));
            }
            if !spec_in_hotspot(operand) {
                lemma_queued_grows(wl_b, worklist@, bank, operand);
            }
        }
        None
    } else if opcode == 0x60 || opcode == 0x40 {
        // RTS, RTI — target unknown (from stack)
        None
    } else if opcode == 0x00 {
        // BRK — jumps to IRQ vector, returns to pc+2
        let cont_pc = next_pc.wrapping_add(1);
        add_start(block_starts, worklist, banks, bank, cont_pc);
        proof {
            assert(cont_pc == add16(next_pc, 1));
            if !spec_in_hotspot(cont_pc) {
                assert(queues(r, scheme, bank, pc, cont_pc));
                lemma_sound_queue(r, scheme, seen, st_a, wl_a, bank, cont_pc);
                assert(worklist@[wl_a.len() as int] == (bank, cont_pc));
            }
        }
        None
    } else {
        Some(next_pc)
    }
}

/// Pass 1: mark every block start reachable from the interrupt vectors.
fn find_block_starts(rom: &[u8], scheme: BankScheme, banks: usize) -> (starts: Vec<bool>)
    requires
        scheme == BankScheme::Fixed ==> rom@.len() > 0,
        banks == bank_count(scheme),
    ensures
        starts@.len() == banks * 65536,
        forall|k: int|
            0 <= k < starts@.len() ==> (starts@[k] <==> block_start_set(rom@, scheme).contains(k)),
        forall|k: int| #[trigger] block_start_set(rom@, scheme).contains(k) ==> 0 <= k < starts@.len(),
{
    let last_bank = banks - 1;
    let total: usize = banks * 65536;
    let mut block_starts = cleared(total);
    let mut visited = cleared(total);
    let mut worklist: Vec<(usize, u16)> = Vec::new();
    let ghost mut seen: Set<int> = Set::empty();
    let ghost r = rom@;

    // Seed with interrupt vectors (from last bank where vectors live)
    let reset_pc = read_vector(rom, scheme, last_bank, 0xFFFC);
    let nmi_pc = read_vector(rom, scheme, last_bank, 0xFFFA);
    let irq_pc = read_vector(rom, scheme, last_bank, 0xFFFE);
    proof {
        assert(walk_sound(r, scheme, seen, block_starts@, worklist@));
    }
    let ghost st0 = block_starts@;
    let ghost wl0 = worklist@;
    add_start(&mut block_starts, &mut worklist, banks, last_bank, reset_pc);
    proof {
        if !spec_in_hotspot(reset_pc) {
            lemma_sound_queue(r, scheme, seen, st0, wl0, last_bank, reset_pc);
            assert(worklist@[wl0.len() as int] == (last_bank, reset_pc));
        }
    }
    let ghost st1 = block_starts@;
    let ghost wl1 = worklist@;
    add_start(&mut block_starts, &mut worklist, banks, last_bank, nmi_pc);
    proof {
        if !spec_in_hotspot(nmi_pc) {
            lemma_sound_queue(r, scheme, seen, st1, wl1, last_bank, nmi_pc);
            assert(worklist@[wl1.len() as int] == (last_bank, nmi_pc));
        }
        if !spec_in_hotspot(reset_pc) {
            lemma_queued_grows(wl1, worklist@, last_bank, reset_pc);
        }
    }
    let ghost st2 = block_starts@;
    let ghost wl2 = worklist@;
    add_start(&mut block_starts, &mut worklist, banks, last_bank, irq_pc);
    proof {
        if !spec_in_hotspot(irq_pc) {
            lemma_sound_queue(r, scheme, seen, st2, wl2, last_bank, irq_pc);
            assert(worklist@[wl2.len() as int] == (last_bank, irq_pc));
        }
        if !spec_in_hotspot(reset_pc) {
            lemma_queued_grows(wl2, worklist@, last_bank, reset_pc);
        }
        if !spec_in_hotspot(nmi_pc) {
            lemma_queued_grows(wl2, worklist@, last_bank, nmi_pc);
        }
        lemma_int_range(0, total as int);
    }
    // Walk all reachable code to find block boundaries
    let mut head: usize = 0;
    while head < worklist.len()
        invariant
            r == rom@,
            scheme == BankScheme::Fixed ==> rom@.len() > 0,
            banks == bank_count(scheme),
            banks <= 8,
            last_bank == banks - 1,
            total == banks * 65536,
            block_starts@.len() == total,
            visited@.len() == total,
            head <= worklist@.len(),
            forall|k: int| 0 <= k < worklist@.len() ==> (#[trigger] worklist@[k]).0 < banks,
            seen.finite(),
            seen.subset_of(set_int_range(0, total as int)),
            set_int_range(0, total as int).finite(),
            set_int_range(0, total as int).len() == total,
            forall|k: int| 0 <= k < total ==> (visited@[k] <==> #[trigger] seen.contains(k)),
            reset_pc == vector_at(r, scheme, 0xFFFC),
            nmi_pc == vector_at(r, scheme, 0xFFFA),
            irq_pc == vector_at(r, scheme, 0xFFFE),
            !spec_in_hotspot(reset_pc) ==> block_starts@[start_key(last_bank, reset_pc)] && queued(
                worklist@,
                last_bank,
                reset_pc,
            ),
            !spec_in_hotspot(nmi_pc) ==> block_starts@[start_key(last_bank, nmi_pc)] && queued(
                worklist@,
                last_bank,
                nmi_pc,
            ),
            !spec_in_hotspot(irq_pc) ==> block_starts@[start_key(last_bank, irq_pc)] && queued(
                worklist@,
                last_bank,
                irq_pc,
            ),
            walk_sound(r, scheme, seen, block_starts@, worklist@),
            walk_done(r, scheme, seen, block_starts@, worklist@, -1),
            forall|i: int|
                0 <= i < head ==> seen.contains(start_key(#[trigger] worklist@[i].0, worklist@[i].1)),
        decreases total - seen.len(), worklist@.len() - head,
    {
        let (bank, start) = worklist[head];
        head = head + 1;
        let ghost seen0 = seen;
        let ghost len0 = worklist@.len();
        let mut pc = start;
        let ghost mut prev: u16 = 0;
        let ghost mut has_prev = false;
        proof {
            let v_ = 0int;
            assert(worklist@[head - 1] == (bank, start));
        }
        loop
            invariant_except_break
                has_prev ==> seen.contains(start_key(bank, prev)) && walkable(r, scheme, bank, prev)
                    && walk_next(r, scheme, bank, prev) == Some(pc) && targets_done(
                    r,
                    scheme,
                    block_starts@,
                    worklist@,
                    bank,
                    prev,
                ),
                !has_prev ==> pc == start,
                walk_done(r, scheme, seen, block_starts@, worklist@, if has_prev {
                    start_key(bank, prev)
                } else {
                    -1
                }),
                forall|v: Set<int>, s: Set<int>|
                    #[trigger] walk_closed(r, scheme, v, s) ==> v.contains(start_key(bank, pc)),
                has_prev ==> seen.contains(start_key(bank, start)),
            invariant
                r == rom@,
                scheme == BankScheme::Fixed ==> rom@.len() > 0,
                banks == bank_count(scheme),
                banks <= 8,
                bank < banks,
                last_bank == banks - 1,
                total == banks * 65536,
                block_starts@.len() == total,
                visited@.len() == total,
                1 <= head <= worklist@.len(),
                worklist@[head - 1] == (bank, start),
                forall|k: int| 0 <= k < worklist@.len() ==> (#[trigger] worklist@[k]).0 < banks,
                seen.finite(),
                seen.subset_of(set_int_range(0, total as int)),
                set_int_range(0, total as int).finite(),
                set_int_range(0, total as int).len() == total,
                forall|k: int| 0 <= k < total ==> (visited@[k] <==> #[trigger] seen.contains(k)),
                seen0.subset_of(seen),
                seen.len() >= seen0.len(),
                seen == seen0 ==> worklist@.len() == len0,
                seen != seen0 ==> seen.len() > seen0.len(),
                reset_pc == vector_at(r, scheme, 0xFFFC),
                nmi_pc == vector_at(r, scheme, 0xFFFA),
                irq_pc == vector_at(r, scheme, 0xFFFE),
                !spec_in_hotspot(reset_pc) ==> block_starts@[start_key(last_bank, reset_pc)]
                    && queued(worklist@, last_bank, reset_pc),
                !spec_in_hotspot(nmi_pc) ==> block_starts@[start_key(last_bank, nmi_pc)] && queued(
                    worklist@,
                    last_bank,
                    nmi_pc,
                ),
                !spec_in_hotspot(irq_pc) ==> block_starts@[start_key(last_bank, irq_pc)] && queued(
                    worklist@,
                    last_bank,
                    irq_pc,
                ),
                walk_sound(r, scheme, seen, block_starts@, worklist@),
                forall|i: int|
                    0 <= i < head - 1 ==> seen.contains(
                        start_key(#[trigger] worklist@[i].0, worklist@[i].1),
                    ),
            ensures
                walk_done(r, scheme, seen, block_starts@, worklist@, -1),
                seen.contains(start_key(bank, start)),
            decreases total - seen.len(),
        {
            let sl = slot(bank, pc);
            if visited[sl] {
                proof {
                    assert(seen.contains(start_key(bank, pc)));
                    if has_prev {
                        assert(done_at(r, scheme, seen, block_starts@, worklist@, bank, prev));
                        lemma_close_pending(r, scheme, seen, block_starts@, worklist@, bank, prev);
                    }
                }
                break;
            }
            visited.set(sl, true);
            let ghost pend = if has_prev {
                start_key(bank, prev)
            } else {
                -1
            };
            let ghost seen_before = seen;
            proof {
                lemma_len_subset(seen, set_int_range(0, total as int));
                assert(!seen.contains(sl as int));
                seen = seen.insert(sl as int);
                assert(seen.len() == seen0.len() + (seen.len() - seen0.len()));
                lemma_len_subset(seen, set_int_range(0, total as int));
                // the previous step is now complete; the new address is pending
                lemma_visit(r, scheme, seen_before, block_starts@, worklist@, has_prev, prev, bank, pc);
            }
            let ghost cur = pc;
            let ghost st_a = block_starts@;
            let ghost wl_a = worklist@;
            let step = walk_step(rom, scheme, banks, bank, pc, &mut block_starts, &mut worklist, Ghost(seen));
            proof {
                lemma_walk_done_grows(
                    r,
                    scheme,
                    seen,
                    st_a,
                    wl_a,
                    seen,
                    block_starts@,
                    worklist@,
                    start_key(bank, cur),
                );
                if !spec_in_hotspot(reset_pc) {
                    lemma_queued_grows(wl_a, worklist@, last_bank, reset_pc);
                }
                if !spec_in_hotspot(nmi_pc) {
                    lemma_queued_grows(wl_a, worklist@, last_bank, nmi_pc);
                }
                if !spec_in_hotspot(irq_pc) {
                    lemma_queued_grows(wl_a, worklist@, last_bank, irq_pc);
                }
            }
            match step {
                Some(n) => {
                    proof {
                        prev = cur;
                        has_prev = true;
                    }
                    pc = n;
                },
                None => {
                    proof {
                        if walkable(r, scheme, bank, cur) {
                            assert(done_at(r, scheme, seen, block_starts@, worklist@, bank, cur));
                        }
                        lemma_close_pending(r, scheme, seen, block_starts@, worklist@, bank, cur);
                    }
                    break;
                },
            }
        }
        proof {
            lemma_len_subset(seen, set_int_range(0, total as int));
            lemma_len_subset(seen0, set_int_range(0, total as int));
        }
    }
    let ghost sset = Set::new(|k: int| 0 <= k < total && block_starts@[k]);
    proof {
        assert(walk_closed(r, scheme, seen, sset)) by {
            assert forall|b: usize, p: u16|
                b < bank_count(scheme) && #[trigger] seen.contains(start_key(b, p)) && walkable(
                    r,
                    scheme,
                    b,
                    p,
                ) implies closed_at(r, scheme, seen, sset, b, p) by {
                assert(done_at(r, scheme, seen, block_starts@, worklist@, b, p));
                assert forall|t: u16| #[trigger] queues(r, scheme, b, p, t) implies seeded(
                    seen,
                    sset,
                    b,
                    t,
                ) by {
                    if !spec_in_hotspot(t) {
                        let i = choose|i: int|
                            0 <= i < worklist@.len() && #[trigger] worklist@[i] == (b, t);
                        assert(seen.contains(start_key(worklist@[i].0, worklist@[i].1)));
                    }
                }
            }
            if !spec_in_hotspot(reset_pc) {
                let i = choose|i: int|
                    0 <= i < worklist@.len() && #[trigger] worklist@[i] == (last_bank, reset_pc);
                assert(seen.contains(start_key(worklist@[i].0, worklist@[i].1)));
            }
            if !spec_in_hotspot(nmi_pc) {
                let i = choose|i: int|
                    0 <= i < worklist@.len() && #[trigger] worklist@[i] == (last_bank, nmi_pc);
                assert(seen.contains(start_key(worklist@[i].0, worklist@[i].1)));
            }
            if !spec_in_hotspot(irq_pc) {
                let i = choose|i: int|
                    0 <= i < worklist@.len() && #[trigger] worklist@[i] == (last_bank, irq_pc);
                assert(seen.contains(start_key(worklist@[i].0, worklist@[i].1)));
            }
        }
        assert forall|k: int| 0 <= k < block_starts@.len() implies (block_starts@[k]
            <==> block_start_set(r, scheme).contains(k)) by {
            if block_starts@[k] {
                assert forall|v: Set<int>, s: Set<int>| #[trigger] walk_closed(r, scheme, v, s) implies s.contains(k) by {
                }
            }
            if block_start_set(r, scheme).contains(k) {
                assert(sset.contains(k));
            }
        }
        assert forall|k: int| #[trigger] block_start_set(r, scheme).contains(k) implies 0 <= k
            < block_starts@.len() by {
            assert(sset.contains(k));
        }
    }
    block_starts
}

/// Discover all reachable basic blocks in the ROM, listed by block
/// identifier (bank, then offset of the start in the 4K window; starts that
/// share an identifier by address).
pub fn discover_blocks(rom: &[u8], scheme: BankScheme) -> (blocks: Vec<BasicBlock>)
    requires
        scheme == BankScheme::Fixed ==> rom@.len() > 0,
    ensures
        forall|i: int| 0 <= i < blocks@.len() ==> #[trigger] block_ok(rom@, scheme, blocks@[i]),
        forall|i: int, j: int|
            0 <= i < j < blocks@.len() ==> spec_block_id(blocks@[i].bank, blocks@[i].start_pc)
                <= spec_block_id(blocks@[j].bank, blocks@[j].start_pc),
        forall|i: int, j: int|
            0 <= i < j < blocks@.len() ==> (blocks@[i].bank, blocks@[i].start_pc) != (
                blocks@[j].bank,
                blocks@[j].start_pc,
            ),
        blocks@.map_values(|b: BasicBlock| block_view(b)) == discovered_blocks(rom@, scheme),
{
    let banks = num_banks(scheme);
    let block_starts = find_block_starts(rom, scheme, banks);

    // Pass 2: build blocks in block-identifier order
    let mut blocks: Vec<BasicBlock> = Vec::new();
    let mut bank: usize = 0;
    while bank < banks
        invariant
            scheme == BankScheme::Fixed ==> rom@.len() > 0,
            banks == bank_count(scheme),
            banks <= 8,
            bank <= banks,
            block_starts@.len() == banks * 65536,
            forall|k: int|
                0 <= k < block_starts@.len() ==> (block_starts@[k] <==> block_start_set(
                    rom@,
                    scheme,
                ).contains(k)),
            blocks@.map_values(|b: BasicBlock| block_view(b)) == blocks_below(rom@, scheme, (bank * 65536) as nat),
            forall|i: int| 0 <= i < blocks@.len() ==> #[trigger] block_ok(rom@, scheme, blocks@[i]),
            listed_in_order(blocks@),
            forall|i: int|
                0 <= i < blocks@.len() ==> list_key(blocks@[i].bank, blocks@[i].start_pc) < bank
                    * 65536,
        decreases banks - bank,
    {
        let mut off: u16 = 0;
        while off < 4096
            invariant
                scheme == BankScheme::Fixed ==> rom@.len() > 0,
                banks == bank_count(scheme),
                banks <= 8,
                bank < banks,
                off <= 4096,
                block_starts@.len() == banks * 65536,
            forall|k: int|
                0 <= k < block_starts@.len() ==> (block_starts@[k] <==> block_start_set(
                    rom@,
                    scheme,
                ).contains(k)),
            blocks@.map_values(|b: BasicBlock| block_view(b)) == blocks_below(rom@, scheme, (bank * 65536 + off * 16) as nat),
                forall|i: int| 0 <= i < blocks@.len() ==> #[trigger] block_ok(rom@, scheme, blocks@[i]),
                listed_in_order(blocks@),
                forall|i: int|
                    0 <= i < blocks@.len() ==> list_key(blocks@[i].bank, blocks@[i].start_pc) < bank
                        * 65536 + off * 16,
            decreases 4096 - off,
        {
            let mut hi: u16 = 0;
            while hi < 16
                invariant
                    scheme == BankScheme::Fixed ==> rom@.len() > 0,
                    banks == bank_count(scheme),
                    banks <= 8,
                    bank < banks,
                    off < 4096,
                    hi <= 16,
                    block_starts@.len() == banks * 65536,
            forall|k: int|
                0 <= k < block_starts@.len() ==> (block_starts@[k] <==> block_start_set(
                    rom@,
                    scheme,
                ).contains(k)),
            blocks@.map_values(|b: BasicBlock| block_view(b)) == blocks_below(rom@, scheme, (bank * 65536 + off * 16 + hi) as nat),
                    forall|i: int|
                        0 <= i < blocks@.len() ==> #[trigger] block_ok(rom@, scheme, blocks@[i]),
                    listed_in_order(blocks@),
                    forall|i: int|
                        0 <= i < blocks@.len() ==> list_key(blocks@[i].bank, blocks@[i].start_pc)
                            < bank * 65536 + off * 16 + hi,
                decreases 16 - hi,
            {
                let start_pc: u16 = hi * 4096 + off;
                let ghost q: int = bank * 65536 + off * 16 + hi;
                let ghost before_all = blocks@;
                proof {
                    assert(start_pc % 4096 == off && start_pc / 4096 == hi) by (nonlinear_arith)
                        requires
                            start_pc == hi * 4096 + off,
                            off < 4096,
                    ;
                    assert(q / 65536 == bank && q % 16 == hi && (q % 65536) / 16 == off) by (
                    nonlinear_arith)
                        requires
                            q == bank * 65536 + off * 16 + hi,
                            off < 4096,
                            hi < 16,
                            bank < 8,
                    ;
                    assert(listed_at(q) == (bank, start_pc));
                    assert(blocks_below(rom@, scheme, (q + 1) as nat) == blocks_below(
                        rom@,
                        scheme,
                        q as nat,
                    ) + block_listed_at(rom@, scheme, q));
                }
                if block_starts[slot(bank, start_pc)] && !in_hotspot_region(start_pc) {
                    match build_block(rom, scheme, &block_starts, banks, bank, start_pc) {
                        Some(b) => {
                            let ghost before = blocks@;
                            blocks.push(b);
                            proof {
                                assert(blocks@.map_values(|b: BasicBlock| block_view(b)) =~= before.map_values(
                                    |b: BasicBlock| block_view(b),
                                ) + block_listed_at(rom@, scheme, q));
                                assert forall|i: int| 0 <= i < blocks@.len() implies #[trigger] block_ok(
                                    rom@,
                                    scheme,
                                    blocks@[i],
                                ) by {
                                    if i < before.len() {
                                        assert(blocks@[i] == before[i]);
                                    }
                                }
                                assert forall|i: int, j: int| 0 <= i < j < blocks@.len() implies list_key(
                                    blocks@[i].bank,
                                    blocks@[i].start_pc,
                                ) < list_key(blocks@[j].bank, blocks@[j].start_pc) by {
                                    assert(blocks@[i] == before[i]);
                                    if j < before.len() {
                                        assert(blocks@[j] == before[j]);
                                    }
                                }
                            }
                        },
                        None => {
                            proof {
                                assert(block_listed_at(rom@, scheme, q) =~= Seq::empty());
                                assert(blocks@.map_values(|b: BasicBlock| block_view(b)) =~= before_all.map_values(
                                    |b: BasicBlock| block_view(b),
                                ) + block_listed_at(rom@, scheme, q));
                            }
                        },
                    }
                } else {
                    proof {
                        assert(block_listed_at(rom@, scheme, q) =~= Seq::empty());
                        assert(blocks@.map_values(|b: BasicBlock| block_view(b)) =~= before_all.map_values(
                            |b: BasicBlock| block_view(b),
                        ) + block_listed_at(rom@, scheme, q));
                    }
                }
                hi = hi + 1;
            }
            off = off + 1;
        }
        bank = bank + 1;
    }
    proof {
        assert forall|i: int, j: int| 0 <= i < j < blocks@.len() implies spec_block_id(
            blocks@[i].bank,
            blocks@[i].start_pc,
        ) <= spec_block_id(blocks@[j].bank, blocks@[j].start_pc) && (
            blocks@[i].bank,
            blocks@[i].start_pc,
        ) != (blocks@[j].bank, blocks@[j].start_pc) by {
            lemma_list_key_order(blocks@[i].bank, blocks@[i].start_pc, blocks@[j].bank, blocks@[j].start_pc);
        }
    }
    blocks
}

// ============================================================
// Block statistics
// ============================================================

/// Position of an exit kind in the summary's exit counts: branch, JMP
/// absolute, JMP indirect, JSR, RTS, RTI, BRK, WSYNC, fall-through.
pub open spec fn spec_exit_kind(e: ExitType) -> int {
    match e {
        ExitType::Branch { .. } => 0,
        ExitType::JmpAbs { .. } => 1,
        ExitType::JmpInd { .. } => 2,
        ExitType::Jsr { .. } => 3,
        ExitType::Rts => 4,
        ExitType::Rti => 5,
        ExitType::Brk => 6,
        ExitType::Wsync { .. } => 7,
        ExitType::Fallthrough { .. } => 8,
    }
}

/// Position of an exit kind in the summary's exit counts.
pub fn exit_kind(e: &ExitType) -> (r: usize)
    ensures
        r == spec_exit_kind(*e),
{
    match e {
        ExitType::Branch { .. } => 0,
        ExitType::JmpAbs { .. } => 1,
        ExitType::JmpInd { .. } => 2,
        ExitType::Jsr { .. } => 3,
        ExitType::Rts => 4,
        ExitType::Rti => 5,
        ExitType::Brk => 6,
        ExitType::Wsync { .. } => 7,
        ExitType::Fallthrough { .. } => 8,
    }
}

/// Total number of instructions in `bs`.
pub open spec fn instr_total(bs: Seq<BasicBlock>) -> int
    decreases bs.len(),
{
    if bs.len() == 0 {
        0
    } else {
        instr_total(bs.drop_last()) + bs.last().instructions@.len()
    }
}

/// Total base cycles of the blocks in `bs`.
pub open spec fn cycle_total(bs: Seq<BasicBlock>) -> int
    decreases bs.len(),
{
    if bs.len() == 0 {
        0
    } else {
        cycle_total(bs.drop_last()) + cycles_sum(bs.last().instructions@)
    }
}

/// Number of blocks of `bs` whose exit is of kind `k`.
pub open spec fn exit_count(bs: Seq<BasicBlock>, k: int) -> int
    decreases bs.len(),
{
    if bs.len() == 0 {
        0
    } else {
        exit_count(bs.drop_last(), k) + if spec_exit_kind(bs.last().exit_type) == k {
            1int
        } else {
            0int
        }
    }
}

/// Smallest and largest instruction count of a block of `bs`, if any.
pub open spec fn size_range(bs: Seq<BasicBlock>) -> Option<(int, int)>
    decreases bs.len(),
{
    if bs.len() == 0 {
        None
    } else {
        let n = bs.last().instructions@.len() as int;
        match size_range(bs.drop_last()) {
            None => Some((n, n)),
            Some((lo, hi)) => Some((
                if n < lo {
                    n
                } else {
                    lo
                },
                if n > hi {
                    n
                } else {
                    hi
                },
            )),
        }
    }
}

/// Counts over a list of blocks: blocks, instructions, base cycles, blocks
/// per exit kind, and the smallest and largest block.
pub struct BlockSummary {
    pub blocks: usize,
    pub instructions: usize,
    pub base_cycles: u32,
    pub exit_counts: Vec<usize>,
    pub sizes: Option<(usize, usize)>,
}

proof fn lemma_totals_bounded(bs: Seq<BasicBlock>, i: int)
    requires
        0 <= i <= bs.len(),
    ensures
        instr_total(bs.subrange(0, i)) <= instr_total(bs),
        cycle_total(bs.subrange(0, i)) <= cycle_total(bs),
        forall|k: int| #[trigger] exit_count(bs.subrange(0, i), k) <= i,
    decreases bs.len() - i,
{
    if i < bs.len() {
        lemma_totals_bounded(bs, i + 1);
        lemma_cycles_sum_nonneg(bs[i].instructions@);
        assert(bs.subrange(0, i + 1).drop_last() =~= bs.subrange(0, i));
    } else {
        assert(bs.subrange(0, i) =~= bs);
    }
    lemma_exit_count_bounded(bs.subrange(0, i));
}

proof fn lemma_exit_count_bounded(bs: Seq<BasicBlock>)
    ensures
        forall|k: int| 0 <= #[trigger] exit_count(bs, k) <= bs.len(),
    decreases bs.len(),
{
    if bs.len() > 0 {
        lemma_exit_count_bounded(bs.drop_last());
        assert forall|k: int| 0 <= #[trigger] exit_count(bs, k) <= bs.len() by {
            assert(0 <= exit_count(bs.drop_last(), k) <= bs.drop_last().len());
        }
    }
}

/// Counts over `blocks`: how many there are, their instructions and base
/// cycles, how many end in each kind of exit, and the smallest and largest
/// block by instruction count.
pub fn block_summary(blocks: &[BasicBlock]) -> (r: BlockSummary)
    requires
        instr_total(blocks@) <= usize::MAX,
        cycle_total(blocks@) <= u32::MAX,
    ensures
        r.blocks == blocks@.len(),
        r.instructions == instr_total(blocks@),
        r.base_cycles == cycle_total(blocks@),
        r.exit_counts@.len() == 9,
        forall|k: int| 0 <= k < 9 ==> #[trigger] r.exit_counts@[k] == exit_count(blocks@, k),
        match r.sizes {
            Some((lo, hi)) => size_range(blocks@) == Some((lo as int, hi as int)),
            None => size_range(blocks@) is None,
        },
{
    let n = blocks.len();
    let mut instructions: usize = 0;
    let mut cycles: u32 = 0;
    let mut counts: Vec<usize> = vec![0, 0, 0, 0, 0, 0, 0, 0, 0];
    let mut sizes: Option<(usize, usize)> = None;
    let mut i: usize = 0;
    while i < n
        invariant
            i <= n,
            n == blocks@.len(),
            instr_total(blocks@) <= usize::MAX,
            cycle_total(blocks@) <= u32::MAX,
            instructions == instr_total(blocks@.subrange(0, i as int)),
            cycles == cycle_total(blocks@.subrange(0, i as int)),
            counts@.len() == 9,
            forall|k: int| 0 <= k < 9 ==> #[trigger] counts@[k] == exit_count(blocks@.subrange(0, i as int), k),
            match sizes {
                Some((lo, hi)) => size_range(blocks@.subrange(0, i as int)) == Some((lo as int, hi as int)),
                None => size_range(blocks@.subrange(0, i as int)) is None,
            },
        decreases n - i,
    {
        let ghost pre = blocks@.subrange(0, i as int);
        let ghost cur = blocks@.subrange(0, i + 1);
        proof {
            assert(cur.drop_last() =~= pre);
            assert(cur.last() == blocks@[i as int]);
            lemma_totals_bounded(blocks@, i + 1);
            lemma_exit_count_bounded(pre);
        }
        let b = &blocks[i];
        let len = b.instructions.len();
        instructions = instructions + len;
        proof {
            lemma_cycles_sum_nonneg(b.instructions@);
        }
        let c = b.base_cycles();
        cycles = cycles + c;
        let k = exit_kind(&b.exit_type);
        let ghost old_counts = counts@;
        let v = counts[k];
        counts.set(k, v + 1);
        proof {
            assert forall|j: int| 0 <= j < 9 implies #[trigger] counts@[j] == exit_count(cur, j) by {
                assert(old_counts[j] == exit_count(pre, j));
            }
        }
        sizes = match sizes {
            None => Some((len, len)),
            Some((lo, hi)) => Some((if len < lo { len } else { lo }, if len > hi { len } else { hi })),
        };
        i = i + 1;
    }
    proof {
        assert(blocks@.subrange(0, n as int) =~= blocks@);
    }
    BlockSummary { blocks: n, instructions, base_cycles: cycles, exit_counts: counts, sizes }
}

proof fn lemma_cycles_sum_nonneg(s: Seq<DecodedInstr>)
    ensures
        cycles_sum(s) >= 0,
    decreases s.len(),
{
    if s.len() > 0 {
        lemma_cycles_sum_nonneg(s.drop_last());
    }
}

} // verus!
