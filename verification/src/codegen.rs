//! CUDA code generation for compiled ROM blocks: each basic block becomes a
//! `case` of a switch that runs its instructions with inlined operands and
//! batched TIA/PIA ticks.
use vstd::prelude::*;
use vstd::string::StringExecFns;
use crate::rom_compiler::{
    AddrMode, Op, op_is_load, decode, classify, BasicBlock, DecodedInstr, ExitType, spec_block_id,
};
use crate::isa::{add16, is_branch_opcode, branch_taken};
use crate::cpu::{has_flag, CARRY, ZERO, OVERFLOW, NEGATIVE};

verus! {

// ============================================================
// Number formatting
// ============================================================

/// Upper-case hexadecimal digit of `d` (below 16).
pub open spec fn hex_char(d: nat) -> char {
    if d < 10 {
        (48 + d) as char
    } else {
        (55 + d) as char
    }
}

/// Decimal digit of `d` (below 10).
pub open spec fn dec_char(d: nat) -> char {
    (48 + d) as char
}

/// `v` in upper-case hexadecimal, zero-padded to at least `w` digits
/// (Rust's `{:0wX}`).
pub open spec fn hex_str(v: nat, w: nat) -> Seq<char>
    decreases v, w,
{
    if v < 16 && w <= 1 {
        seq![hex_char(v)]
    } else {
        hex_str(v / 16, if w == 0 {
            0
        } else {
            (w - 1) as nat
        }).push(hex_char(v % 16))
    }
}

/// `v` in decimal (Rust's `{}`).
pub open spec fn dec_str(v: nat) -> Seq<char>
    decreases v,
{
    if v < 10 {
        seq![dec_char(v)]
    } else {
        dec_str(v / 10).push(dec_char(v % 10))
    }
}

/// A one-character string for a hexadecimal digit.
fn hex_digit(d: u8) -> (r: &'static str)
    requires
        d < 16,
    ensures
        r@ == seq![hex_char(d as nat)],
{
    proof {
        reveal_strlit("0");
        reveal_strlit("1");
        reveal_strlit("2");
        reveal_strlit("3");
        reveal_strlit("4");
        reveal_strlit("5");
        reveal_strlit("6");
        reveal_strlit("7");
        reveal_strlit("8");
        reveal_strlit("9");
        reveal_strlit("A");
        reveal_strlit("B");
        reveal_strlit("C");
        reveal_strlit("D");
        reveal_strlit("E");
        reveal_strlit("F");
    }
    match d {
        0 => "0",
        1 => "1",
        2 => "2",
        3 => "3",
        4 => "4",
        5 => "5",
        6 => "6",
        7 => "7",
        8 => "8",
        9 => "9",
        10 => "A",
        11 => "B",
        12 => "C",
        13 => "D",
        14 => "E",
        _ => "F",
    }
}

/// Append `v` in upper-case hexadecimal, zero-padded to at least `w` digits.
fn push_hex(out: &mut String, v: u32, w: u32)
    requires
        w <= 8,
    ensures
        final(out)@ == old(out)@ + hex_str(v as nat, w as nat),
    decreases v, w,
{
    if v < 16 && w <= 1 {
        out.append(hex_digit(v as u8));
    } else {
        let nw = if w == 0 {
            0
        } else {
            w - 1
        };
        push_hex(out, v / 16, nw);
        out.append(hex_digit((v % 16) as u8));
        proof {
            assert(out@ =~= old(out)@ + hex_str(v as nat, w as nat));
        }
    }
}

/// Append `v` in decimal.
pub(crate) fn push_dec(out: &mut String, v: u64)
    ensures
        final(out)@ == old(out)@ + dec_str(v as nat),
    decreases v,
{
    if v < 10 {
        out.append(hex_digit(v as u8));
    } else {
        push_dec(out, v / 10);
        out.append(hex_digit((v % 10) as u8));
        proof {
            assert(out@ =~= old(out)@ + dec_str(v as nat));
        }
    }
}

// ============================================================
// Operand expressions
// ============================================================

/// C expression that reads the operand of an instruction in `mode`.
pub open spec fn spec_read_expr(mode: AddrMode, operand: u16) -> Seq<char> {
    match mode {
        AddrMode::Immediate => "0x"@ + hex_str((operand & 0xFF) as nat, 2),
        AddrMode::ZeroPage => "BR(0x"@ + hex_str((operand & 0xFF) as nat, 4) + ")"@,
        AddrMode::ZeroPageX => "BR((uint16_t)(("@ + dec_str((operand & 0xFF) as nat) + " + c->x) & 0xFF))"@,
        AddrMode::ZeroPageY => "BR((uint16_t)(("@ + dec_str((operand & 0xFF) as nat) + " + c->y) & 0xFF))"@,
        AddrMode::Absolute => "BR(0x"@ + hex_str((operand) as nat, 4) + ")"@,
        AddrMode::AbsoluteX => "BR((uint16_t)(0x"@ + hex_str((operand) as nat, 4) + " + c->x))"@,
        AddrMode::AbsoluteY => "BR((uint16_t)(0x"@ + hex_str((operand) as nat, 4) + " + c->y))"@,
        AddrMode::IndirectX => "BR(__aot_addr_izx(c, mr, rp, rl, 0x"@ + hex_str((operand & 0xFF) as nat, 4) + "))"@,
        AddrMode::IndirectY => "BR(__aot_addr_izy(c, mr, rp, rl, 0x"@ + hex_str((operand & 0xFF) as nat, 4) + "))"@,
        _ => Seq::<char>::empty(),
    }
}

/// C expression that reads the operand of an instruction in `mode`.
fn read_expr(mode: AddrMode, operand: u16) -> (r: String)
    requires
        mode != AddrMode::Implied,
    ensures
        r@ == spec_read_expr(mode, operand),
{
    let mut s = String::new();
    match mode {
        AddrMode::Immediate => {
            s.append("0x");
            push_hex(&mut s, (operand & 0xFF) as u32, 2);
        },
        AddrMode::ZeroPage => {
            s.append("BR(0x");
            push_hex(&mut s, (operand & 0xFF) as u32, 4);
            s.append(")");
        },
        AddrMode::ZeroPageX => {
            s.append("BR((uint16_t)((");
            push_dec(&mut s, (operand & 0xFF) as u64);
            s.append(" + c->x) & 0xFF))");
        },
        AddrMode::ZeroPageY => {
            s.append("BR((uint16_t)((");
            push_dec(&mut s, (operand & 0xFF) as u64);
            s.append(" + c->y) & 0xFF))");
        },
        AddrMode::Absolute => {
            s.append("BR(0x");
            push_hex(&mut s, (operand) as u32, 4);
            s.append(")");
        },
        AddrMode::AbsoluteX => {
            s.append("BR((uint16_t)(0x");
            push_hex(&mut s, (operand) as u32, 4);
            s.append(" + c->x))");
        },
        AddrMode::AbsoluteY => {
            s.append("BR((uint16_t)(0x");
            push_hex(&mut s, (operand) as u32, 4);
            s.append(" + c->y))");
        },
        AddrMode::IndirectX => {
            s.append("BR(__aot_addr_izx(c, mr, rp, rl, 0x");
            push_hex(&mut s, (operand & 0xFF) as u32, 4);
            s.append("))");
        },
        AddrMode::IndirectY => {
            s.append("BR(__aot_addr_izy(c, mr, rp, rl, 0x");
            push_hex(&mut s, (operand & 0xFF) as u32, 4);
            s.append("))");
        },
        _ => {},
    }
    s
}

/// C expression for the address an instruction in a memory `mode` writes.
pub open spec fn spec_write_addr_expr(mode: AddrMode, operand: u16) -> Seq<char> {
    match mode {
        AddrMode::ZeroPage => "0x"@ + hex_str((operand & 0xFF) as nat, 4),
        AddrMode::ZeroPageX => "(uint16_t)(("@ + dec_str((operand & 0xFF) as nat) + " + c->x) & 0xFF)"@,
        AddrMode::ZeroPageY => "(uint16_t)(("@ + dec_str((operand & 0xFF) as nat) + " + c->y) & 0xFF)"@,
        AddrMode::Absolute => "0x"@ + hex_str((operand) as nat, 4),
        AddrMode::AbsoluteX => "(uint16_t)(0x"@ + hex_str((operand) as nat, 4) + " + c->x)"@,
        AddrMode::AbsoluteY => "(uint16_t)(0x"@ + hex_str((operand) as nat, 4) + " + c->y)"@,
        AddrMode::IndirectX => "__aot_addr_izx(c, mr, rp, rl, 0x"@ + hex_str((operand & 0xFF) as nat, 4) + ")"@,
        AddrMode::IndirectY => "__aot_addr_izy(c, mr, rp, rl, 0x"@ + hex_str((operand & 0xFF) as nat, 4) + ")"@,
        _ => Seq::<char>::empty(),
    }
}

/// C expression for the address an instruction in a memory `mode` writes.
fn write_addr_expr(mode: AddrMode, operand: u16) -> (r: String)
    requires
        mode != AddrMode::Implied && mode != AddrMode::Immediate,
    ensures
        r@ == spec_write_addr_expr(mode, operand),
{
    let mut s = String::new();
    match mode {
        AddrMode::ZeroPage => {
            s.append("0x");
            push_hex(&mut s, (operand & 0xFF) as u32, 4);
        },
        AddrMode::ZeroPageX => {
            s.append("(uint16_t)((");
            push_dec(&mut s, (operand & 0xFF) as u64);
            s.append(" + c->x) & 0xFF)");
        },
        AddrMode::ZeroPageY => {
            s.append("(uint16_t)((");
            push_dec(&mut s, (operand & 0xFF) as u64);
            s.append(" + c->y) & 0xFF)");
        },
        AddrMode::Absolute => {
            s.append("0x");
            push_hex(&mut s, (operand) as u32, 4);
        },
        AddrMode::AbsoluteX => {
            s.append("(uint16_t)(0x");
            push_hex(&mut s, (operand) as u32, 4);
            s.append(" + c->x)");
        },
        AddrMode::AbsoluteY => {
            s.append("(uint16_t)(0x");
            push_hex(&mut s, (operand) as u32, 4);
            s.append(" + c->y)");
        },
        AddrMode::IndirectX => {
            s.append("__aot_addr_izx(c, mr, rp, rl, 0x");
            push_hex(&mut s, (operand & 0xFF) as u32, 4);
            s.append(")");
        },
        AddrMode::IndirectY => {
            s.append("__aot_addr_izy(c, mr, rp, rl, 0x");
            push_hex(&mut s, (operand & 0xFF) as u32, 4);
            s.append(")");
        },
        _ => {},
    }
    s
}

/// Page-cross penalty code for a read in an indexed mode: sets `_p` to 0 or 1.
pub open spec fn spec_penalty_code(mode: AddrMode, operand: u16) -> Option<Seq<char>> {
    match mode {
        AddrMode::AbsoluteX => Some("_p = ((0x"@ + hex_str((operand) as nat, 4) + " & 0xFF00) != ((uint16_t)(0x"@ + hex_str((operand) as nat, 4) + " + c->x) & 0xFF00)) ? 1 : 0;"@),
        AddrMode::AbsoluteY => Some("_p = ((0x"@ + hex_str((operand) as nat, 4) + " & 0xFF00) != ((uint16_t)(0x"@ + hex_str((operand) as nat, 4) + " + c->y) & 0xFF00)) ? 1 : 0;"@),
        AddrMode::IndirectY => Some("_p = __aot_px_izy(c, mr, rp, rl, 0x"@ + hex_str((operand & 0xFF) as nat, 4) + ");"@),
        _ => None,
    }
}

/// Returns page-cross penalty code for read operations in indexed modes.
/// Sets `_p` variable (must be declared in scope) to 0 or 1.
fn penalty_code(mode: AddrMode, operand: u16) -> (r: Option<String>)
    ensures
        match r {
            Some(s) => spec_penalty_code(mode, operand) == Some(s@),
            None => spec_penalty_code(mode, operand) is None,
        },
{
    let mut s = String::new();
    match mode {
        AddrMode::AbsoluteX => {
            s.append("_p = ((0x");
            push_hex(&mut s, (operand) as u32, 4);
            s.append(" & 0xFF00) != ((uint16_t)(0x");
            push_hex(&mut s, (operand) as u32, 4);
            s.append(" + c->x) & 0xFF00)) ? 1 : 0;");
            Some(s)
        },
        AddrMode::AbsoluteY => {
            s.append("_p = ((0x");
            push_hex(&mut s, (operand) as u32, 4);
            s.append(" & 0xFF00) != ((uint16_t)(0x");
            push_hex(&mut s, (operand) as u32, 4);
            s.append(" + c->y) & 0xFF00)) ? 1 : 0;");
            Some(s)
        },
        AddrMode::IndirectY => {
            s.append("_p = __aot_px_izy(c, mr, rp, rl, 0x");
            push_hex(&mut s, (operand & 0xFF) as u32, 4);
            s.append(");");
            Some(s)
        },
        _ => None,
    }
}

// ============================================================
// Instructions and blocks
// ============================================================

/// Whether an instruction's operand can be emitted: reads need an operand,
/// stores and read-modify-writes a memory address.
pub open spec fn emit_ok(op: Op, mode: AddrMode) -> bool {
    match op {
        Op::Lda | Op::Ldx | Op::Ldy | Op::Adc | Op::Sbc | Op::And | Op::Ora | Op::Eor | Op::Cmp | Op::Cpx | Op::Cpy | Op::Bit => mode != AddrMode::Implied,
        Op::Sta | Op::Stx | Op::Sty | Op::AslM | Op::LsrM | Op::RolM | Op::RorM | Op::IncM | Op::DecM => mode != AddrMode::Implied && mode != AddrMode::Immediate,
        _ => true,
    }
}

/// C statements for one instruction, one per line (none for NOP).
pub open spec fn spec_emit_instruction(op: Op, mode: AddrMode, operand: u16) -> Seq<Seq<char>> {
    match op {
        Op::Lda => seq!["c->a = "@ + spec_read_expr(mode, operand) + "; set_zn(&c->status, c->a);"@],
        Op::Ldx => seq!["c->x = "@ + spec_read_expr(mode, operand) + "; set_zn(&c->status, c->x);"@],
        Op::Ldy => seq!["c->y = "@ + spec_read_expr(mode, operand) + "; set_zn(&c->status, c->y);"@],
        Op::Sta => seq!["BW("@ + spec_write_addr_expr(mode, operand) + ", c->a);"@],
        Op::Stx => seq!["BW("@ + spec_write_addr_expr(mode, operand) + ", c->x);"@],
        Op::Sty => seq!["BW("@ + spec_write_addr_expr(mode, operand) + ", c->y);"@],
        Op::Adc => seq!["do_adc(c, "@ + spec_read_expr(mode, operand) + ");"@],
        Op::Sbc => seq!["do_sbc(c, "@ + spec_read_expr(mode, operand) + ");"@],
        Op::And => seq!["c->a &= "@ + spec_read_expr(mode, operand) + "; set_zn(&c->status, c->a);"@],
        Op::Ora => seq!["c->a |= "@ + spec_read_expr(mode, operand) + "; set_zn(&c->status, c->a);"@],
        Op::Eor => seq!["c->a ^= "@ + spec_read_expr(mode, operand) + "; set_zn(&c->status, c->a);"@],
        Op::Cmp => seq!["do_cmp(&c->status, c->a, "@ + spec_read_expr(mode, operand) + ");"@],
        Op::Cpx => seq!["do_cmp(&c->status, c->x, "@ + spec_read_expr(mode, operand) + ");"@],
        Op::Cpy => seq!["do_cmp(&c->status, c->y, "@ + spec_read_expr(mode, operand) + ");"@],
        Op::Bit => seq!["{ uint8_t v = "@ + spec_read_expr(mode, operand) + "; set_flag(&c->status, FLAG_ZERO, (c->a & v) == 0); set_flag(&c->status, FLAG_OVERFLOW, (v & 0x40) != 0); set_flag(&c->status, FLAG_NEGATIVE, (v & 0x80) != 0); }"@],
        Op::AslM => seq!["do_asl_m(c, mr, rp, rl, "@ + spec_write_addr_expr(mode, operand) + ");"@],
        Op::LsrM => seq!["do_lsr_m(c, mr, rp, rl, "@ + spec_write_addr_expr(mode, operand) + ");"@],
        Op::RolM => seq!["do_rol_m(c, mr, rp, rl, "@ + spec_write_addr_expr(mode, operand) + ");"@],
        Op::RorM => seq!["do_ror_m(c, mr, rp, rl, "@ + spec_write_addr_expr(mode, operand) + ");"@],
        Op::IncM => seq!["do_inc_m(c, mr, rp, rl, "@ + spec_write_addr_expr(mode, operand) + ");"@],
        Op::DecM => seq!["do_dec_m(c, mr, rp, rl, "@ + spec_write_addr_expr(mode, operand) + ");"@],
        Op::AslA => seq!["set_flag(&c->status, FLAG_CARRY, (c->a & 0x80) != 0); c->a <<= 1; set_zn(&c->status, c->a);"@],
        Op::LsrA => seq!["set_flag(&c->status, FLAG_CARRY, (c->a & 0x01) != 0); c->a >>= 1; set_flag(&c->status, FLAG_ZERO, c->a == 0); set_flag(&c->status, FLAG_NEGATIVE, false);"@],
        Op::RolA => seq!["{ uint8_t oc = get_flag(c->status, FLAG_CARRY) ? 1 : 0; set_flag(&c->status, FLAG_CARRY, (c->a & 0x80) != 0); c->a = (c->a << 1) | oc; set_zn(&c->status, c->a); }"@],
        Op::RorA => seq!["{ uint8_t oc = get_flag(c->status, FLAG_CARRY) ? 1 : 0; set_flag(&c->status, FLAG_CARRY, (c->a & 0x01) != 0); c->a = (c->a >> 1) | (oc << 7); set_zn(&c->status, c->a); }"@],
        Op::Tax => seq!["c->x = c->a; set_zn(&c->status, c->x);"@],
        Op::Txa => seq!["c->a = c->x; set_zn(&c->status, c->a);"@],
        Op::Tay => seq!["c->y = c->a; set_zn(&c->status, c->y);"@],
        Op::Tya => seq!["c->a = c->y; set_zn(&c->status, c->a);"@],
        Op::Txs => seq!["c->sp = c->x;"@],
        Op::Tsx => seq!["c->x = c->sp; set_zn(&c->status, c->x);"@],
        Op::Inx => seq!["c->x += 1; set_zn(&c->status, c->x);"@],
        Op::Iny => seq!["c->y += 1; set_zn(&c->status, c->y);"@],
        Op::Dex => seq!["c->x -= 1; set_zn(&c->status, c->x);"@],
        Op::Dey => seq!["c->y -= 1; set_zn(&c->status, c->y);"@],
        Op::Pha => seq!["PUSH8(c->a);"@],
        Op::Pla => seq!["c->a = PULL8_VAL(); set_zn(&c->status, c->a);"@],
        Op::Php => seq!["PUSH8(c->status | FLAG_BREAK | FLAG_UNUSED);"@],
        Op::Plp => seq!["{ uint8_t f = PULL8_VAL(); c->status = f & ~(FLAG_BREAK | FLAG_UNUSED); }"@],
        Op::Clc => seq!["set_flag(&c->status, FLAG_CARRY, false);"@],
        Op::Sec => seq!["set_flag(&c->status, FLAG_CARRY, true);"@],
        Op::Cli => seq!["set_flag(&c->status, FLAG_INTERRUPT, false);"@],
        Op::Sei => seq!["set_flag(&c->status, FLAG_INTERRUPT, true);"@],
        Op::Clv => seq!["set_flag(&c->status, FLAG_OVERFLOW, false);"@],
        Op::Cld => seq!["set_flag(&c->status, FLAG_DECIMAL, false);"@],
        Op::Sed => seq!["set_flag(&c->status, FLAG_DECIMAL, true);"@],
        Op::Nop => Seq::empty(),
    }
}

/// Emit C code for a single instruction. Returns lines of C code.
fn emit_instruction(op: Op, mode: AddrMode, operand: u16) -> (lines: Vec<String>)
    requires
        emit_ok(op, mode),
    ensures
        lines@.map_values(|l: String| l@) == spec_emit_instruction(op, mode, operand),
{
    let mut lines: Vec<String> = Vec::new();
    let mut s = String::new();
    match op {
        Op::Lda => {
            s.append("c->a = ");
            s.append(read_expr(mode, operand).as_str());
            s.append("; set_zn(&c->status, c->a);");
            lines.push(s);
        },
        Op::Ldx => {
            s.append("c->x = ");
            s.append(read_expr(mode, operand).as_str());
            s.append("; set_zn(&c->status, c->x);");
            lines.push(s);
        },
        Op::Ldy => {
            s.append("c->y = ");
            s.append(read_expr(mode, operand).as_str());
            s.append("; set_zn(&c->status, c->y);");
            lines.push(s);
        },
        Op::Sta => {
            s.append("BW(");
            s.append(write_addr_expr(mode, operand).as_str());
            s.append(", c->a);");
            lines.push(s);
        },
        Op::Stx => {
            s.append("BW(");
            s.append(write_addr_expr(mode, operand).as_str());
            s.append(", c->x);");
            lines.push(s);
        },
        Op::Sty => {
            s.append("BW(");
            s.append(write_addr_expr(mode, operand).as_str());
            s.append(", c->y);");
            lines.push(s);
        },
        Op::Adc => {
            s.append("do_adc(c, ");
            s.append(read_expr(mode, operand).as_str());
            s.append(");");
            lines.push(s);
        },
        Op::Sbc => {
            s.append("do_sbc(c, ");
            s.append(read_expr(mode, operand).as_str());
            s.append(");");
            lines.push(s);
        },
        Op::And => {
            s.append("c->a &= ");
            s.append(read_expr(mode, operand).as_str());
            s.append("; set_zn(&c->status, c->a);");
            lines.push(s);
        },
        Op::Ora => {
            s.append("c->a |= ");
            s.append(read_expr(mode, operand).as_str());
            s.append("; set_zn(&c->status, c->a);");
            lines.push(s);
        },
        Op::Eor => {
            s.append("c->a ^= ");
            s.append(read_expr(mode, operand).as_str());
            s.append("; set_zn(&c->status, c->a);");
            lines.push(s);
        },
        Op::Cmp => {
            s.append("do_cmp(&c->status, c->a, ");
            s.append(read_expr(mode, operand).as_str());
            s.append(");");
            lines.push(s);
        },
        Op::Cpx => {
            s.append("do_cmp(&c->status, c->x, ");
            s.append(read_expr(mode, operand).as_str());
            s.append(");");
            lines.push(s);
        },
        Op::Cpy => {
            s.append("do_cmp(&c->status, c->y, ");
            s.append(read_expr(mode, operand).as_str());
            s.append(");");
            lines.push(s);
        },
        Op::Bit => {
            s.append("{ uint8_t v = ");
            s.append(read_expr(mode, operand).as_str());
            s.append("; set_flag(&c->status, FLAG_ZERO, (c->a & v) == 0); set_flag(&c->status, FLAG_OVERFLOW, (v & 0x40) != 0); set_flag(&c->status, FLAG_NEGATIVE, (v & 0x80) != 0); }");
            lines.push(s);
        },
        Op::AslM => {
            s.append("do_asl_m(c, mr, rp, rl, ");
            s.append(write_addr_expr(mode, operand).as_str());
            s.append(");");
            lines.push(s);
        },
        Op::LsrM => {
            s.append("do_lsr_m(c, mr, rp, rl, ");
            s.append(write_addr_expr(mode, operand).as_str());
            s.append(");");
            lines.push(s);
        },
        Op::RolM => {
            s.append("do_rol_m(c, mr, rp, rl, ");
            s.append(write_addr_expr(mode, operand).as_str());
            s.append(");");
            lines.push(s);
        },
        Op::RorM => {
            s.append("do_ror_m(c, mr, rp, rl, ");
            s.append(write_addr_expr(mode, operand).as_str());
            s.append(");");
            lines.push(s);
        },
        Op::IncM => {
            s.append("do_inc_m(c, mr, rp, rl, ");
            s.append(write_addr_expr(mode, operand).as_str());
            s.append(");");
            lines.push(s);
        },
        Op::DecM => {
            s.append("do_dec_m(c, mr, rp, rl, ");
            s.append(write_addr_expr(mode, operand).as_str());
            s.append(");");
            lines.push(s);
        },
        Op::AslA => {
            s.append("set_flag(&c->status, FLAG_CARRY, (c->a & 0x80) != 0); c->a <<= 1; set_zn(&c->status, c->a);");
            lines.push(s);
        },
        Op::LsrA => {
            s.append("set_flag(&c->status, FLAG_CARRY, (c->a & 0x01) != 0); c->a >>= 1; set_flag(&c->status, FLAG_ZERO, c->a == 0); set_flag(&c->status, FLAG_NEGATIVE, false);");
            lines.push(s);
        },
        Op::RolA => {
            s.append("{ uint8_t oc = get_flag(c->status, FLAG_CARRY) ? 1 : 0; set_flag(&c->status, FLAG_CARRY, (c->a & 0x80) != 0); c->a = (c->a << 1) | oc; set_zn(&c->status, c->a); }");
            lines.push(s);
        },
        Op::RorA => {
            s.append("{ uint8_t oc = get_flag(c->status, FLAG_CARRY) ? 1 : 0; set_flag(&c->status, FLAG_CARRY, (c->a & 0x01) != 0); c->a = (c->a >> 1) | (oc << 7); set_zn(&c->status, c->a); }");
            lines.push(s);
        },
        Op::Tax => {
            s.append("c->x = c->a; set_zn(&c->status, c->x);");
            lines.push(s);
        },
        Op::Txa => {
            s.append("c->a = c->x; set_zn(&c->status, c->a);");
            lines.push(s);
        },
        Op::Tay => {
            s.append("c->y = c->a; set_zn(&c->status, c->y);");
            lines.push(s);
        },
        Op::Tya => {
            s.append("c->a = c->y; set_zn(&c->status, c->a);");
            lines.push(s);
        },
        Op::Txs => {
            s.append("c->sp = c->x;");
            lines.push(s);
        },
        Op::Tsx => {
            s.append("c->x = c->sp; set_zn(&c->status, c->x);");
            lines.push(s);
        },
        Op::Inx => {
            s.append("c->x += 1; set_zn(&c->status, c->x);");
            lines.push(s);
        },
        Op::Iny => {
            s.append("c->y += 1; set_zn(&c->status, c->y);");
            lines.push(s);
        },
        Op::Dex => {
            s.append("c->x -= 1; set_zn(&c->status, c->x);");
            lines.push(s);
        },
        Op::Dey => {
            s.append("c->y -= 1; set_zn(&c->status, c->y);");
            lines.push(s);
        },
        Op::Pha => {
            s.append("PUSH8(c->a);");
            lines.push(s);
        },
        Op::Pla => {
            s.append("c->a = PULL8_VAL(); set_zn(&c->status, c->a);");
            lines.push(s);
        },
        Op::Php => {
            s.append("PUSH8(c->status | FLAG_BREAK | FLAG_UNUSED);");
            lines.push(s);
        },
        Op::Plp => {
            s.append("{ uint8_t f = PULL8_VAL(); c->status = f & ~(FLAG_BREAK | FLAG_UNUSED); }");
            lines.push(s);
        },
        Op::Clc => {
            s.append("set_flag(&c->status, FLAG_CARRY, false);");
            lines.push(s);
        },
        Op::Sec => {
            s.append("set_flag(&c->status, FLAG_CARRY, true);");
            lines.push(s);
        },
        Op::Cli => {
            s.append("set_flag(&c->status, FLAG_INTERRUPT, false);");
            lines.push(s);
        },
        Op::Sei => {
            s.append("set_flag(&c->status, FLAG_INTERRUPT, true);");
            lines.push(s);
        },
        Op::Clv => {
            s.append("set_flag(&c->status, FLAG_OVERFLOW, false);");
            lines.push(s);
        },
        Op::Cld => {
            s.append("set_flag(&c->status, FLAG_DECIMAL, false);");
            lines.push(s);
        },
        Op::Sed => {
            s.append("set_flag(&c->status, FLAG_DECIMAL, true);");
            lines.push(s);
        },
        Op::Nop => {},
    }
    proof {
        assert(lines@.map_values(|l: String| l@) =~= spec_emit_instruction(op, mode, operand));
    }
    lines
}


/// Returns true if this op+mode combination can have page-cross penalties.
pub open spec fn spec_has_penalty(op: Op, mode: AddrMode) -> bool {
    op_is_load(op) && (mode == AddrMode::AbsoluteX || mode == AddrMode::AbsoluteY || mode
        == AddrMode::IndirectY)
}

fn has_penalty(op: Op, mode: AddrMode) -> (r: bool)
    ensures
        r == spec_has_penalty(op, mode),
{
    let is_read = match op {
        Op::Lda | Op::Ldx | Op::Ldy | Op::Adc | Op::Sbc | Op::And | Op::Ora | Op::Eor | Op::Cmp
        | Op::Cpx | Op::Cpy => true,
        _ => false,
    };
    is_read && (mode == AddrMode::AbsoluteX || mode == AddrMode::AbsoluteY || mode
        == AddrMode::IndirectY)
}

/// Branch flag condition for the given branch opcode.
pub open spec fn spec_branch_condition(opcode: u8) -> Seq<char> {
    if opcode == 0x10 {
        "!get_flag(c->status, FLAG_NEGATIVE)"@
    } else if opcode == 0x30 {
        "get_flag(c->status, FLAG_NEGATIVE)"@
    } else if opcode == 0x50 {
        "!get_flag(c->status, FLAG_OVERFLOW)"@
    } else if opcode == 0x70 {
        "get_flag(c->status, FLAG_OVERFLOW)"@
    } else if opcode == 0x90 {
        "!get_flag(c->status, FLAG_CARRY)"@
    } else if opcode == 0xB0 {
        "get_flag(c->status, FLAG_CARRY)"@
    } else if opcode == 0xD0 {
        "!get_flag(c->status, FLAG_ZERO)"@
    } else {
        "get_flag(c->status, FLAG_ZERO)"@
    }
}

/// What a C flag test of the form the emitter writes evaluates to on the
/// status byte `s`: `get_flag(c->status, FLAG_X)` is whether flag X is set
/// in `s`, and a leading `!` negates it; `None` for any other text.
pub open spec fn flag_test_value(text: Seq<char>, s: u8) -> Option<bool> {
    if text == "get_flag(c->status, FLAG_CARRY)"@ {
        Some(has_flag(s, CARRY))
    } else if text == "!get_flag(c->status, FLAG_CARRY)"@ {
        Some(!has_flag(s, CARRY))
    } else if text == "get_flag(c->status, FLAG_ZERO)"@ {
        Some(has_flag(s, ZERO))
    } else if text == "!get_flag(c->status, FLAG_ZERO)"@ {
        Some(!has_flag(s, ZERO))
    } else if text == "get_flag(c->status, FLAG_OVERFLOW)"@ {
        Some(has_flag(s, OVERFLOW))
    } else if text == "!get_flag(c->status, FLAG_OVERFLOW)"@ {
        Some(!has_flag(s, OVERFLOW))
    } else if text == "get_flag(c->status, FLAG_NEGATIVE)"@ {
        Some(has_flag(s, NEGATIVE))
    } else if text == "!get_flag(c->status, FLAG_NEGATIVE)"@ {
        Some(!has_flag(s, NEGATIVE))
    } else {
        None
    }
}

/// The compiled branch goes the way the CPU goes: for every branch opcode
/// and every status byte, the emitted C condition holds exactly when a CPU
/// step takes the branch (BCC when CARRY is clear, BCS when it is set, and
/// so on).
pub proof fn lemma_branch_condition_matches_cpu(opcode: u8, s: u8)
    requires
        is_branch_opcode(opcode),
    ensures
        flag_test_value(spec_branch_condition(opcode), s) == Some(branch_taken(opcode, s)),
{
    reveal_strlit("get_flag(c->status, FLAG_CARRY)");
    reveal_strlit("!get_flag(c->status, FLAG_CARRY)");
    reveal_strlit("get_flag(c->status, FLAG_ZERO)");
    reveal_strlit("!get_flag(c->status, FLAG_ZERO)");
    reveal_strlit("get_flag(c->status, FLAG_OVERFLOW)");
    reveal_strlit("!get_flag(c->status, FLAG_OVERFLOW)");
    reveal_strlit("get_flag(c->status, FLAG_NEGATIVE)");
    reveal_strlit("!get_flag(c->status, FLAG_NEGATIVE)");
    let gc = "get_flag(c->status, FLAG_CARRY)"@;
    let nc = "!get_flag(c->status, FLAG_CARRY)"@;
    let gz = "get_flag(c->status, FLAG_ZERO)"@;
    let nz = "!get_flag(c->status, FLAG_ZERO)"@;
    let go = "get_flag(c->status, FLAG_OVERFLOW)"@;
    let no = "!get_flag(c->status, FLAG_OVERFLOW)"@;
    let gn = "get_flag(c->status, FLAG_NEGATIVE)"@;
    let nn = "!get_flag(c->status, FLAG_NEGATIVE)"@;
    assert(gc.len() == 31 && nc.len() == 32 && gz.len() == 30 && nz.len() == 31 && go.len() == 34
        && no.len() == 35 && gn.len() == 34 && nn.len() == 35);
    assert(gc[0] != nz[0]);
    assert(go[25] != gn[25]);
    assert(no[26] != nn[26]);
    assert(gc != nz && nz != gc && go != gn && gn != go && no != nn && nn != no);
}

fn branch_condition(opcode: u8) -> (r: &'static str)
    requires
        is_branch_opcode(opcode),
    ensures
        r@ == spec_branch_condition(opcode),
{
    match opcode {
        0x10 => "!get_flag(c->status, FLAG_NEGATIVE)",  // BPL
        0x30 => "get_flag(c->status, FLAG_NEGATIVE)",  // BMI
        0x50 => "!get_flag(c->status, FLAG_OVERFLOW)",  // BVC
        0x70 => "get_flag(c->status, FLAG_OVERFLOW)",  // BVS
        0x90 => "!get_flag(c->status, FLAG_CARRY)",  // BCC
        0xB0 => "get_flag(c->status, FLAG_CARRY)",  // BCS
        0xD0 => "!get_flag(c->status, FLAG_ZERO)",  // BNE
        _ => "get_flag(c->status, FLAG_ZERO)",  // BEQ
    }
}

/// Lines of C code, each indented by eight spaces and ended by a newline.
pub open spec fn lines_text(ls: Seq<Seq<char>>) -> Seq<char>
    decreases ls.len(),
{
    if ls.len() == 0 {
        Seq::empty()
    } else {
        lines_text(ls.drop_last()) + "        "@ + ls.last() + "\n"@
    }
}

/// The line that advances TIA, PIA and the cycle count by `cy` cycles.
pub open spec fn tick_line(indent: Seq<char>, cy: nat) -> Seq<char> {
    indent + "tia_tick_n(c, "@ + dec_str(cy) + "); pia_tick_n(c, (uint16_t)"@ + dec_str(cy)
        + "); *cycles += "@ + dec_str(cy) + ";\n"@
}

/// C code of one body instruction followed by its own tick (with the
/// page-cross penalty folded in where it can apply); nothing for an opcode
/// that is not classified.
pub open spec fn instr_text(i: DecodedInstr) -> Seq<char> {
    match decode(i.opcode) {
        Some((op, mode)) => lines_text(spec_emit_instruction(op, mode, i.operand)) + if spec_has_penalty(
            op,
            mode,
        ) {
            "        { uint8_t _p = 0; "@ + spec_penalty_code(mode, i.operand)->0
                + " tia_tick_n(c, "@ + dec_str(i.cycles as nat) + " + _p); pia_tick_n(c, (uint16_t)("@
                + dec_str(i.cycles as nat) + " + _p)); *cycles += "@ + dec_str(i.cycles as nat)
                + " + _p; }\n"@
        } else {
            tick_line("        "@, i.cycles as nat)
        },
        None => Seq::empty(),
    }
}

/// C code of a run of body instructions.
pub open spec fn body_text(instrs: Seq<DecodedInstr>) -> Seq<char>
    decreases instrs.len(),
{
    if instrs.len() == 0 {
        Seq::empty()
    } else {
        body_text(instrs.drop_last()) + instr_text(instrs.last())
    }
}

/// Exits whose last instruction the block's exit code carries out itself.
pub open spec fn exit_has_instr(e: ExitType) -> bool {
    !(e is Wsync) && !(e is Fallthrough)
}

/// The body instructions of a block: all but an exit instruction.
pub open spec fn body_of(b: BasicBlock) -> Seq<DecodedInstr> {
    if exit_has_instr(b.exit_type) {
        b.instructions@.drop_last()
    } else {
        b.instructions@
    }
}

/// C code of a branch exit: the taken side ticks one more cycle (two
/// across a page) than the branch's base count.
pub open spec fn branch_exit_text(ei: DecodedInstr, taken_pc: u16, not_taken_pc: u16) -> Seq<char> {
    let page_cross = (not_taken_pc & 0xFF00) != (taken_pc & 0xFF00);
    let taken_cy = ei.cycles + 1 + if page_cross {
        1int
    } else {
        0int
    };
    "        if ("@ + spec_branch_condition(ei.opcode) + ") {\n"@ + tick_line(
        "            "@,
        taken_cy as nat,
    ) + "            c->pc = 0x"@ + hex_str(taken_pc as nat, 4) + "; break;\n"@ + "        }\n"@
        + tick_line("        "@, ei.cycles as nat) + "        c->pc = 0x"@ + hex_str(
        not_taken_pc as nat,
        4,
    ) + "; break;\n"@
}

/// C code of a JMP, JSR, RTS, RTI or BRK exit.
pub open spec fn jump_exit_text(e: ExitType, ei: DecodedInstr) -> Seq<char> {
    match e {
        ExitType::JmpAbs { target } => tick_line("        "@, ei.cycles as nat) + "        c->pc = 0x"@
            + hex_str(target as nat, 4) + "; break;\n"@,
        ExitType::JmpInd { operand } => "        { uint16_t p = 0x"@ + hex_str(operand as nat, 4)
            + "; uint8_t lo = BR(p); uint8_t hi = BR((p & 0xFF00) | ((p + 1) & 0x00FF));\n"@
            + tick_line("        "@, ei.cycles as nat)
            + "        c->pc = ((uint16_t)hi << 8) | lo; break; }\n"@,
        ExitType::Jsr { target, .. } => "        PUSH16(0x"@ + hex_str(add16(ei.pc, 2) as nat, 4)
            + ");\n"@ + tick_line("        "@, ei.cycles as nat) + "        c->pc = 0x"@ + hex_str(
            target as nat,
            4,
        ) + "; break;\n"@,
        ExitType::Rts => "        { uint16_t r = PULL16_VAL();\n"@ + tick_line(
            "        "@,
            ei.cycles as nat,
        ) + "        c->pc = r + 1; break; }\n"@,
        ExitType::Rti => "        { uint8_t f = PULL8_VAL(); c->status = f & ~(FLAG_BREAK | FLAG_UNUSED);\n"@
            + "        c->pc = PULL16_VAL();\n"@ + tick_line("        "@, ei.cycles as nat)
            + "        break; }\n"@,
        _ => "        PUSH16(0x"@ + hex_str(add16(ei.pc, 2) as nat, 4) + ");\n"@
            + "        PUSH8(c->status | FLAG_BREAK | FLAG_UNUSED);\n"@
            + "        set_flag(&c->status, FLAG_INTERRUPT, true);\n"@ + tick_line(
            "        "@,
            ei.cycles as nat,
        ) + "        c->pc = R16(0xFFFE); break;\n"@,
    }
}

/// C code of a block's exit.
pub open spec fn exit_text(b: BasicBlock) -> Seq<char> {
    let ei = b.instructions@.last();
    match b.exit_type {
        ExitType::Branch { taken_pc, not_taken_pc } => branch_exit_text(ei, taken_pc, not_taken_pc),
        ExitType::Wsync { next_pc } => "        c->pc = 0x"@ + hex_str(next_pc as nat, 4)
            + "; break;\n"@,
        ExitType::Fallthrough { next_pc } => "        c->pc = 0x"@ + hex_str(next_pc as nat, 4)
            + "; break;\n"@,
        _ => jump_exit_text(b.exit_type, ei),
    }
}

/// C code of a block: a `case` on its identifier with its body and exit.
pub open spec fn block_text(b: BasicBlock) -> Seq<char> {
    "    case 0x"@ + hex_str(spec_block_id(b.bank, b.start_pc) as nat, 4) + ": {\n"@ + body_text(
        body_of(b),
    ) + exit_text(b) + "    }\n"@
}

/// Blocks whose code can be generated: an exit instruction where the exit
/// needs one, a branch opcode with room for its taken-branch cycles behind a
/// branch exit.
pub open spec fn emittable(b: BasicBlock) -> bool {
    &&& exit_has_instr(b.exit_type) ==> b.instructions@.len() >= 1
    &&& b.exit_type is Branch ==> is_branch_opcode(b.instructions@.last().opcode)
        && b.instructions@.last().cycles <= 253
}

/// Whether code can be generated for `b` (see `emittable`).
pub fn emittable_block(b: &BasicBlock) -> (r: bool)
    ensures
        r == emittable(*b),
{
    let n = b.instructions.len();
    match b.exit_type {
        ExitType::Wsync { .. } | ExitType::Fallthrough { .. } => true,
        ExitType::Branch { .. } => {
            if n == 0 {
                false
            } else {
                let last = &b.instructions[n - 1];
                let op = last.opcode;
                (op == 0x10 || op == 0x30 || op == 0x50 || op == 0x70 || op == 0x90 || op == 0xB0
                    || op == 0xD0 || op == 0xF0) && last.cycles <= 253
            }
        },
        _ => n >= 1,
    }
}

/// Every classified opcode has an operand shape the emitter can write.
proof fn lemma_decode_emit_ok(opcode: u8)
    ensures
        decode(opcode) matches Some((op, mode)) ==> emit_ok(op, mode),
{
}

/// Append the line that advances TIA, PIA and the cycle count.
fn push_tick(out: &mut String, indent: &str, cy: u32)
    ensures
        final(out)@ == old(out)@ + tick_line(indent@, cy as nat),
{
    out.append(indent);
    out.append("tia_tick_n(c, ");
    push_dec(out, cy as u64);
    out.append("); pia_tick_n(c, (uint16_t)");
    push_dec(out, cy as u64);
    out.append("); *cycles += ");
    push_dec(out, cy as u64);
    out.append(";\n");
    proof {
        assert(out@ =~= old(out)@ + tick_line(indent@, cy as nat));
    }
}

/// Append the C code of one body instruction.
fn push_instr(out: &mut String, instr: &DecodedInstr)
    ensures
        final(out)@ == old(out)@ + instr_text(*instr),
{
    proof {
        lemma_decode_emit_ok(instr.opcode);
    }
    if let Some((op, mode)) = classify(instr.opcode) {
        let lines = emit_instruction(op, mode, instr.operand);
        let ghost start = out@;
        let ghost ls = lines@.map_values(|l: String| l@);
        let mut k: usize = 0;
        while k < lines.len()
            invariant
                k <= lines@.len(),
                ls == lines@.map_values(|l: String| l@),
                out@ == start + lines_text(ls.subrange(0, k as int)),
            decreases lines@.len() - k,
        {
            out.append("        ");
            out.append(lines[k].as_str());
            out.append("\n");
            proof {
                let sub = ls.subrange(0, k + 1);
                assert(sub.drop_last() =~= ls.subrange(0, k as int));
                assert(sub.last() == lines@[k as int]@);
                assert(out@ =~= start + lines_text(sub));
            }
            k = k + 1;
        }
        proof {
            assert(ls.subrange(0, k as int) =~= ls);
        }
        let cy = instr.cycles;
        if has_penalty(op, mode) {
            let pen = match penalty_code(mode, instr.operand) {
                Some(p) => p,
                None => String::new(),
            };
            let ghost before = out@;
            out.append("        { uint8_t _p = 0; ");
            out.append(pen.as_str());
            out.append(" tia_tick_n(c, ");
            push_dec(out, cy as u64);
            out.append(" + _p); pia_tick_n(c, (uint16_t)(");
            push_dec(out, cy as u64);
            out.append(" + _p)); *cycles += ");
            push_dec(out, cy as u64);
            out.append(" + _p; }\n");
            proof {
                assert(out@ =~= old(out)@ + instr_text(*instr));
            }
        } else {
            push_tick(out, "        ", cy as u32);
            proof {
                assert(out@ =~= old(out)@ + instr_text(*instr));
            }
        }
    } else {
        proof {
            assert(out@ =~= old(out)@ + instr_text(*instr));
        }
    }
}


/// Append the C code of a branch exit.
fn push_branch_exit(out: &mut String, bi: &DecodedInstr, taken_pc: u16, not_taken_pc: u16)
    requires
        is_branch_opcode(bi.opcode),
        bi.cycles <= 253,
    ensures
        final(out)@ == old(out)@ + branch_exit_text(*bi, taken_pc, not_taken_pc),
{
    let cond = branch_condition(bi.opcode);
    let page_cross = (not_taken_pc & 0xFF00) != (taken_pc & 0xFF00);
    let taken_cy = bi.cycles + 1 + if page_cross {
        1
    } else {
        0
    };
    let not_taken_cy = bi.cycles;
    out.append("        if (");
    out.append(cond);
    out.append(") {\n");
    push_tick(out, "            ", taken_cy as u32);
    out.append("            c->pc = 0x");
    push_hex(out, taken_pc as u32, 4);
    out.append("; break;\n");
    out.append("        }\n");
    push_tick(out, "        ", not_taken_cy as u32);
    out.append("        c->pc = 0x");
    push_hex(out, not_taken_pc as u32, 4);
    out.append("; break;\n");
    proof {
        assert(out@ =~= old(out)@ + branch_exit_text(*bi, taken_pc, not_taken_pc));
    }
}

/// Append the C code of a JMP, JSR, RTS, RTI or BRK exit.
#[verifier::rlimit(50)]
fn push_jump_exit(out: &mut String, e: ExitType, ei: &DecodedInstr)
    ensures
        final(out)@ == old(out)@ + jump_exit_text(e, *ei),
{
    match e {
        ExitType::JmpAbs { target } => {
            push_tick(out, "        ", ei.cycles as u32);
            out.append("        c->pc = 0x");
            push_hex(out, target as u32, 4);
            out.append("; break;\n");
        },
        ExitType::JmpInd { operand } => {
            out.append("        { uint16_t p = 0x");
            push_hex(out, operand as u32, 4);
            out.append("; uint8_t lo = BR(p); uint8_t hi = BR((p & 0xFF00) | ((p + 1) & 0x00FF));\n");
            push_tick(out, "        ", ei.cycles as u32);
            out.append("        c->pc = ((uint16_t)hi << 8) | lo; break; }\n");
        },
        ExitType::Jsr { target, .. } => {
            let push_addr = ei.pc.wrapping_add(2);
            out.append("        PUSH16(0x");
            push_hex(out, push_addr as u32, 4);
            out.append(");\n");
            push_tick(out, "        ", ei.cycles as u32);
            out.append("        c->pc = 0x");
            push_hex(out, target as u32, 4);
            out.append("; break;\n");
        },
        ExitType::Rts => {
            out.append("        { uint16_t r = PULL16_VAL();\n");
            push_tick(out, "        ", ei.cycles as u32);
            out.append("        c->pc = r + 1; break; }\n");
        },
        ExitType::Rti => {
            out.append("        { uint8_t f = PULL8_VAL(); c->status = f & ~(FLAG_BREAK | FLAG_UNUSED);\n");
            out.append("        c->pc = PULL16_VAL();\n");
            push_tick(out, "        ", ei.cycles as u32);
            out.append("        break; }\n");
        },
        _ => {
            let push_addr = ei.pc.wrapping_add(2);
            out.append("        PUSH16(0x");
            push_hex(out, push_addr as u32, 4);
            out.append(");\n");
            out.append("        PUSH8(c->status | FLAG_BREAK | FLAG_UNUSED);\n");
            out.append("        set_flag(&c->status, FLAG_INTERRUPT, true);\n");
            push_tick(out, "        ", ei.cycles as u32);
            out.append("        c->pc = R16(0xFFFE); break;\n");
        },
    }
    proof {
        assert(out@ =~= old(out)@ + jump_exit_text(e, *ei));
    }
}

/// Append the C code of a block's exit.
fn push_exit(out: &mut String, block: &BasicBlock)
    requires
        emittable(*block),
    ensures
        final(out)@ == old(out)@ + exit_text(*block),
{
    let n = block.instructions.len();
    match block.exit_type {
        ExitType::Branch { taken_pc, not_taken_pc } => {
            push_branch_exit(out, &block.instructions[n - 1], taken_pc, not_taken_pc);
        },
        ExitType::Wsync { next_pc } | ExitType::Fallthrough { next_pc } => {
            // Body instructions already ticked individually
            out.append("        c->pc = 0x");
            push_hex(out, next_pc as u32, 4);
            out.append("; break;\n");
            proof {
                assert(out@ =~= old(out)@ + exit_text(*block));
            }
        },
        _ => {
            push_jump_exit(out, block.exit_type, &block.instructions[n - 1]);
        },
    }
}

/// Generate C code for a single basic block (the body of a switch case).
/// Uses per-instruction ticking for correct timing behavior; operands are
/// inlined.
pub fn emit_block(block: &BasicBlock) -> (r: String)
    requires
        emittable(*block),
    ensures
        r@ == block_text(*block),
{
    let mut out = String::new();
    let id = block.block_id();
    out.append("    case 0x");
    push_hex(&mut out, id, 4);
    out.append(": {\n");
    // Split: body instructions vs exit instruction
    let n = block.instructions.len();
    let body_len = match block.exit_type {
        ExitType::Wsync { .. } | ExitType::Fallthrough { .. } => n,
        _ => n - 1,
    };
    let ghost head = out@;
    let ghost body = body_of(*block);
    assert(body.len() == body_len);
    // Emit body instructions with per-instruction ticking
    let mut i: usize = 0;
    while i < body_len
        invariant
            i <= body_len,
            body_len <= n,
            n == block.instructions@.len(),
            body == body_of(*block),
            body.len() == body_len,
            forall|k: int| 0 <= k < body_len ==> body[k] == block.instructions@[k],
            out@ == head + body_text(body.subrange(0, i as int)),
        decreases body_len - i,
    {
        push_instr(&mut out, &block.instructions[i]);
        proof {
            let sub = body.subrange(0, i + 1);
            assert(sub.drop_last() =~= body.subrange(0, i as int));
            assert(sub.last() == block.instructions@[i as int]);
        }
        i = i + 1;
    }
    proof {
        assert(body.subrange(0, i as int) =~= body);
    }
    // Emit exit
    push_exit(&mut out, block);
    out.append("    }\n");
    proof {
        assert(out@ =~= block_text(*block));
    }
    out
}

} // verus!
