//! Instruction-set semantics of the 6502 as the CPU core executes it: what
//! every opcode does to the registers, and the exact sequence of bus reads
//! and writes it performs, one per cycle.
use vstd::prelude::*;
use crate::cpu::{
    Cpu, Memory, Status, zn, with_flag, has_flag, CARRY, ZERO, INTERRUPT, DECIMAL, OVERFLOW,
    NEGATIVE,
};
use crate::rom_compiler::{
    Op, AddrMode, decode, op_is_store, op_is_rmw, op_is_stack, op_is_load, is_legal_opcode,
    CYCLE_TABLE, SIZE_TABLE, straight_cycles, mode_size, lemma_tables_match_decode,
    lemma_cycle_table_range,
};

verus! {

// ---------------------------------------------------------------------------
// Address and byte arithmetic
// ---------------------------------------------------------------------------

/// 16-bit address arithmetic modulo 64K (`n` may be negative).
pub open spec fn add16(x: u16, n: int) -> u16 {
    ((x + n) % 0x10000) as u16
}

/// 8-bit addition modulo 256.
pub open spec fn add8(x: u8, y: int) -> u8 {
    ((x + y) % 0x100) as u8
}

/// Little-endian 16-bit word from its two bytes.
pub open spec fn word(lo: u8, hi: u8) -> u16 {
    (hi * 256 + lo) as u16
}

/// Address of stack slot `sp` in page one.
pub open spec fn stack_addr(sp: u8) -> u16 {
    (0x100 + sp) as u16
}

/// The 256-byte page an address lies in.
pub open spec fn page(x: u16) -> int {
    x as int / 256
}

/// The address an indexed access touches before its carry into the high
/// byte is applied: high byte of `base`, low byte of `eff`.
pub open spec fn unfixed_addr(base: u16, eff: u16) -> u16 {
    (page(base) * 256 + eff % 256) as u16
}

/// Signed value of a branch offset byte.
pub open spec fn signed_offset(b: u8) -> int {
    if b < 128 {
        b as int
    } else {
        b - 256
    }
}

// ---------------------------------------------------------------------------
// Register updates
// ---------------------------------------------------------------------------

pub open spec fn with_pc(c: Cpu, pc: u16) -> Cpu {
    Cpu { pc: pc, ..c }
}

pub open spec fn with_sp(c: Cpu, sp: u8) -> Cpu {
    Cpu { sp: sp, ..c }
}

pub open spec fn with_status(c: Cpu, s: u8) -> Cpu {
    Cpu { status: Status(s), ..c }
}

/// Load A and set ZERO/NEGATIVE from it.
pub open spec fn set_a(c: Cpu, v: u8) -> Cpu {
    Cpu { a: v, status: Status(zn(c.status.0, v)), ..c }
}

pub open spec fn set_x(c: Cpu, v: u8) -> Cpu {
    Cpu { x: v, status: Status(zn(c.status.0, v)), ..c }
}

pub open spec fn set_y(c: Cpu, v: u8) -> Cpu {
    Cpu { y: v, status: Status(zn(c.status.0, v)), ..c }
}

pub open spec fn carry_in(c: Cpu) -> u8 {
    if has_flag(c.status.0, CARRY) {
        1
    } else {
        0
    }
}

// ---------------------------------------------------------------------------
// ALU
// ---------------------------------------------------------------------------

/// ADC in binary mode: A + M + C; CARRY on unsigned overflow, OVERFLOW when
/// both operands have one sign and the result the other.
pub open spec fn adc_binary(c: Cpu, v: u8) -> Cpu {
    let sum = c.a + v + carry_in(c);
    let r = (sum % 256) as u8;
    let s1 = with_flag(c.status.0, CARRY, sum > 255);
    let s2 = with_flag(s1, OVERFLOW, (c.a >= 128) == (v >= 128) && (r >= 128) != (c.a >= 128));
    Cpu { a: r, status: Status(zn(s2, r)), ..c }
}

/// ADC in decimal mode (NMOS 6502 BCD adjust; Z from the binary sum, N and V
/// from the intermediate high nibble).
pub open spec fn adc_decimal(c: Cpu, v: u8) -> Cpu {
    let lo0 = ((c.a & 0x0F) + (v & 0x0F) + carry_in(c)) as u8;
    let lo = if lo0 > 9 {
        (lo0 + 6) as u8
    } else {
        lo0
    };
    let hi0 = ((c.a >> 4u8) + (v >> 4u8) + (if lo > 0x0F {
        1int
    } else {
        0int
    })) as u8;
    let bin_sum = c.a + v + carry_in(c);
    let s1 = with_flag(c.status.0, ZERO, bin_sum % 256 == 0);
    let s2 = with_flag(s1, NEGATIVE, hi0 & 0x08 != 0);
    let s3 = with_flag(s2, OVERFLOW, (!(c.a ^ v) & (c.a ^ ((hi0 << 4u8) | (lo & 0x0F))) & 0x80) != 0);
    let hi = if hi0 > 9 {
        (hi0 + 6) as u8
    } else {
        hi0
    };
    let s4 = with_flag(s3, CARRY, hi > 0x0F);
    Cpu { a: ((hi & 0x0F) << 4u8) | (lo & 0x0F), status: Status(s4), ..c }
}

pub open spec fn adc_spec(c: Cpu, v: u8) -> Cpu {
    if has_flag(c.status.0, DECIMAL) {
        adc_decimal(c, v)
    } else {
        adc_binary(c, v)
    }
}

/// SBC in binary mode: A - M - !C; CARRY means no borrow, OVERFLOW when the
/// operands have different signs and the result's sign differs from A's.
pub open spec fn sbc_binary(c: Cpu, v: u8) -> Cpu {
    let diff = c.a - v - (1 - carry_in(c));
    let r = (diff % 256) as u8;
    let s1 = with_flag(c.status.0, CARRY, diff >= 0);
    let s2 = with_flag(s1, OVERFLOW, (c.a >= 128) != (v >= 128) && (r >= 128) != (c.a >= 128));
    Cpu { a: r, status: Status(zn(s2, r)), ..c }
}

/// Accumulator result of a decimal-mode SBC: nibble-wise subtraction with
/// a BCD adjust of 6 on each nibble that borrowed.
pub open spec fn bcd_sub(a: u8, v: u8, borrow: int) -> u8 {
    let lo0 = add8(add8(a & 0x0F, -(v & 0x0F)), -borrow);
    let lo = if lo0 >= 128 {
        add8(lo0, -6)
    } else {
        lo0
    };
    let lo_borrow: int = if lo0 >= 128 {
        1
    } else {
        0
    };
    let hi0 = add8(add8(a >> 4u8, -(v >> 4u8)), -lo_borrow);
    let hi = if hi0 >= 128 {
        add8(hi0, -6)
    } else {
        hi0
    };
    ((hi & 0x0F) << 4u8) | (lo & 0x0F)
}

/// SBC in decimal mode (NMOS 6502: flags from the binary difference, A from
/// the nibble-wise BCD adjust).
pub open spec fn sbc_decimal(c: Cpu, v: u8) -> Cpu {
    let borrow = 1 - carry_in(c);
    let diff = c.a - v - borrow;
    let d = (diff % 256) as u8;
    let s1 = with_flag(c.status.0, CARRY, diff >= 0);
    let s2 = with_flag(s1, ZERO, d == 0);
    let s3 = with_flag(s2, NEGATIVE, d >= 128);
    let s4 = with_flag(s3, OVERFLOW, (c.a >= 128) != (v >= 128) && (d >= 128) != (c.a >= 128));
    Cpu { a: bcd_sub(c.a, v, borrow), status: Status(s4), ..c }
}

pub open spec fn sbc_spec(c: Cpu, v: u8) -> Cpu {
    if has_flag(c.status.0, DECIMAL) {
        sbc_decimal(c, v)
    } else {
        sbc_binary(c, v)
    }
}

/// CMP/CPX/CPY: CARRY when `reg >= v`, ZERO/NEGATIVE from `reg - v`.
pub open spec fn compare_spec(c: Cpu, reg: u8, v: u8) -> Cpu {
    with_status(c, zn(with_flag(c.status.0, CARRY, reg >= v), add8(reg, -v)))
}

/// BIT: ZERO from A AND M, OVERFLOW and NEGATIVE from bits 6 and 7 of M.
pub open spec fn bit_spec(c: Cpu, v: u8) -> Cpu {
    with_status(
        c,
        with_flag(
            with_flag(with_flag(c.status.0, ZERO, c.a & v == 0), OVERFLOW, v & 0x40 != 0),
            NEGATIVE,
            v & 0x80 != 0,
        ),
    )
}

/// Result and new status of a shift or rotate of `v`.
pub open spec fn asl_spec(c: Cpu, v: u8) -> (u8, Cpu) {
    let r = v << 1u8;
    (r, with_status(c, zn(with_flag(c.status.0, CARRY, v & 0x80 != 0), r)))
}

pub open spec fn lsr_spec(c: Cpu, v: u8) -> (u8, Cpu) {
    let r = v >> 1u8;
    (r, with_status(c, zn(with_flag(c.status.0, CARRY, v & 0x01 != 0), r)))
}

pub open spec fn rol_spec(c: Cpu, v: u8) -> (u8, Cpu) {
    let r = (v << 1u8) | carry_in(c);
    (r, with_status(c, zn(with_flag(c.status.0, CARRY, v & 0x80 != 0), r)))
}

pub open spec fn ror_spec(c: Cpu, v: u8) -> (u8, Cpu) {
    let r = (v >> 1u8) | (carry_in(c) << 7u8);
    (r, with_status(c, zn(with_flag(c.status.0, CARRY, v & 0x01 != 0), r)))
}

/// Setting ZERO and NEGATIVE leaves the carry as it was set.
proof fn lemma_zn_keeps_carry(s: u8, b: bool, v: u8)
    ensures
        has_flag(zn(with_flag(s, CARRY, b), v), CARRY) == b,
        has_flag(zn(with_flag(s, CARRY, b), v), ZERO) == (v == 0),
        has_flag(zn(with_flag(s, CARRY, b), v), NEGATIVE) == (v >= 0x80),
{
    assert(has_flag(zn(with_flag(s, CARRY, b), v), CARRY) == b && has_flag(
        zn(with_flag(s, CARRY, b), v),
        ZERO,
    ) == (v == 0) && has_flag(zn(with_flag(s, CARRY, b), v), NEGATIVE) == (v >= 0x80))
        by (bit_vector);
}

/// CMP, CPX and CPY of register value `r` with operand `m`: CARRY says
/// `r >= m` as unsigned bytes (no borrow), ZERO says they are equal,
/// NEGATIVE is bit 7 of `r - m` modulo 256; no register changes.
pub proof fn lemma_compare_flags(c: Cpu, r: u8, m: u8)
    ensures
        ({
            let c2 = compare_spec(c, r, m);
            &&& has_flag(c2.status.0, CARRY) == (r >= m)
            &&& has_flag(c2.status.0, ZERO) == (r == m)
            &&& has_flag(c2.status.0, NEGATIVE) == ((r - m) % 256 >= 128)
            &&& c2 == (Cpu { status: c2.status, ..c })
        }),
{
    let d = add8(r, -m);
    lemma_zn_keeps_carry(c.status.0, r >= m, d);
    assert(d == 0 <==> r == m);
}

/// A CMP #imm step sets CARRY exactly when A is at least the immediate
/// byte and ZERO exactly when they are equal, so a following BCS is taken
/// on equal values.
pub proof fn lemma_cmp_immediate_step<M: Memory>(c: Cpu, m: M::Model)
    requires
        M::read_value(m, c.pc) == 0xC9,
    ensures
        ({
            let operand = M::read_value(M::after_read(m, c.pc), add16(c.pc, 1));
            let c2 = step_spec::<M>(c, m).0;
            &&& has_flag(c2.status.0, CARRY) == (c.a >= operand)
            &&& has_flag(c2.status.0, ZERO) == (c.a == operand)
            &&& branch_taken(0xB0, c2.status.0) == (c.a >= operand)
        }),
{
    let (opcode, c1, m1) = fetch::<M>(c, m);
    let (v, c1b, m1b) = fetch::<M>(c1, m1);
    lemma_compare_flags(c1b, c1b.a, v);
}

/// The compare instructions compare the right register: CMP uses A, CPX
/// uses X, CPY uses Y, each against the operand as `lemma_compare_flags`
/// says.
pub proof fn lemma_compare_ops(c: Cpu, v: u8)
    ensures
        has_flag(read_op_spec(Op::Cmp, c, v).status.0, CARRY) == (c.a >= v),
        has_flag(read_op_spec(Op::Cmp, c, v).status.0, ZERO) == (c.a == v),
        has_flag(read_op_spec(Op::Cpx, c, v).status.0, CARRY) == (c.x >= v),
        has_flag(read_op_spec(Op::Cpx, c, v).status.0, ZERO) == (c.x == v),
        has_flag(read_op_spec(Op::Cpy, c, v).status.0, CARRY) == (c.y >= v),
        has_flag(read_op_spec(Op::Cpy, c, v).status.0, ZERO) == (c.y == v),
{
    lemma_compare_flags(c, c.a, v);
    lemma_compare_flags(c, c.x, v);
    lemma_compare_flags(c, c.y, v);
}

/// ROR undoes ROL, carry included, and ROL undoes ROR.
pub proof fn lemma_rotate_inverse(c: Cpu, v: u8)
    ensures
        ({
            let (r, c1) = rol_spec(c, v);
            let (back, c2) = ror_spec(c1, r);
            back == v && has_flag(c2.status.0, CARRY) == has_flag(c.status.0, CARRY)
        }),
        ({
            let (r, c1) = ror_spec(c, v);
            let (back, c2) = rol_spec(c1, r);
            back == v && has_flag(c2.status.0, CARRY) == has_flag(c.status.0, CARRY)
        }),
{
    let s = c.status.0;
    let ci: u8 = carry_in(c);
    let (r, c1) = rol_spec(c, v);
    lemma_zn_keeps_carry(s, v & 0x80 != 0, r);
    let co: u8 = carry_in(c1);
    let (r2, d1) = ror_spec(c, v);
    lemma_zn_keeps_carry(s, v & 0x01 != 0, r2);
    let co2: u8 = carry_in(d1);
    assert({
        &&& ((((v << 1u8) | ci) >> 1u8) | (co << 7u8)) == v
        &&& (((v << 1u8) | ci) & 0x01 != 0) == (ci == 1)
        &&& ((((v >> 1u8) | (ci << 7u8)) << 1u8) | co2) == v
        &&& (((v >> 1u8) | (ci << 7u8)) & 0x80 != 0) == (ci == 1)
    }) by (bit_vector)
        requires
            ci == 0 || ci == 1,
            co == (if v & 0x80 != 0 { 1u8 } else { 0u8 }),
            co2 == (if v & 0x01 != 0 { 1u8 } else { 0u8 }),
    ;
    // ROL then ROR
    let (back, c2) = ror_spec(c1, r);
    lemma_zn_keeps_carry(c1.status.0, r & 0x01 != 0, back);
    // ROR then ROL
    let (back2, d2) = rol_spec(d1, r2);
    lemma_zn_keeps_carry(d1.status.0, r2 & 0x80 != 0, back2);
}

/// Binary-mode ADC: A becomes A + M + C modulo 256, CARRY is the unsigned
/// carry out, OVERFLOW is set when both operands' signs differ from the
/// result's, ZERO and NEGATIVE follow the result, and the other flags and
/// registers stay.
pub proof fn lemma_adc_binary(c: Cpu, v: u8)
    requires
        !has_flag(c.status.0, DECIMAL),
    ensures
        ({
            let r = adc_spec(c, v);
            let sum = c.a + v + carry_in(c);
            &&& r.a == sum % 256
            &&& has_flag(r.status.0, CARRY) == (sum > 255)
            &&& has_flag(r.status.0, OVERFLOW) == ((c.a ^ r.a) & (v ^ r.a) & 0x80 != 0)
            &&& has_flag(r.status.0, ZERO) == (r.a == 0)
            &&& has_flag(r.status.0, NEGATIVE) == (r.a & 0x80 != 0)
            &&& r.status.0 & 0x3C == c.status.0 & 0x3C
            &&& r == (Cpu { a: r.a, status: r.status, ..c })
        }),
{
    let s = c.status.0;
    let a = c.a;
    let ci: u8 = carry_in(c);
    let sum = a + v + ci;
    let rr = (sum % 256) as u8;
    let cy = sum > 255;
    let ov = (a >= 128) == (v >= 128) && (rr >= 128) != (a >= 128);
    let s2 = with_flag(with_flag(s, CARRY, cy), OVERFLOW, ov);
    let s3 = zn(s2, rr);
    assert(ov == ((a ^ rr) & (v ^ rr) & 0x80 != 0) && has_flag(s3, CARRY) == cy && has_flag(
        s3,
        OVERFLOW,
    ) == ov && has_flag(s3, ZERO) == (rr == 0) && has_flag(s3, NEGATIVE) == (rr & 0x80 != 0) && s3
        & 0x3C == s & 0x3C) by (bit_vector)
        requires
            ci <= 1,
            rr == ((a as u16 + v as u16 + ci as u16) % 256) as u8,
            ov == ((a >= 128) == (v >= 128) && (rr >= 128) != (a >= 128)),
            s2 == with_flag(with_flag(s, CARRY, cy), OVERFLOW, ov),
            s3 == zn(s2, rr),
    ;
}

/// Effect of an operation that consumes an operand value `v`.
pub open spec fn read_op_spec(op: Op, c: Cpu, v: u8) -> Cpu {
    match op {
        Op::Lda => set_a(c, v),
        Op::Ldx => set_x(c, v),
        Op::Ldy => set_y(c, v),
        Op::Adc => adc_spec(c, v),
        Op::Sbc => sbc_spec(c, v),
        Op::And => set_a(c, c.a & v),
        Op::Ora => set_a(c, c.a | v),
        Op::Eor => set_a(c, c.a ^ v),
        Op::Cmp => compare_spec(c, c.a, v),
        Op::Cpx => compare_spec(c, c.x, v),
        Op::Cpy => compare_spec(c, c.y, v),
        Op::Bit => bit_spec(c, v),
        _ => c,
    }
}

/// New value and registers of a read-modify-write operation on `v`.
pub open spec fn rmw_op_spec(op: Op, c: Cpu, v: u8) -> (u8, Cpu) {
    match op {
        Op::AslM => asl_spec(c, v),
        Op::LsrM => lsr_spec(c, v),
        Op::RolM => rol_spec(c, v),
        Op::RorM => ror_spec(c, v),
        Op::IncM => (add8(v, 1), with_status(c, zn(c.status.0, add8(v, 1)))),
        Op::DecM => (add8(v, -1), with_status(c, zn(c.status.0, add8(v, -1)))),
        _ => (v, c),
    }
}

/// The register a store operation writes out.
pub open spec fn store_value(op: Op, c: Cpu) -> u8 {
    match op {
        Op::Stx => c.x,
        Op::Sty => c.y,
        _ => c.a,
    }
}

/// Effect of an implied-mode operation that touches registers only.
pub open spec fn implied_op_spec(op: Op, c: Cpu) -> Cpu {
    match op {
        Op::AslA => { let (r, c1) = asl_spec(c, c.a); Cpu { a: r, ..c1 } },
        Op::LsrA => { let (r, c1) = lsr_spec(c, c.a); Cpu { a: r, ..c1 } },
        Op::RolA => { let (r, c1) = rol_spec(c, c.a); Cpu { a: r, ..c1 } },
        Op::RorA => { let (r, c1) = ror_spec(c, c.a); Cpu { a: r, ..c1 } },
        Op::Tax => set_x(c, c.a),
        Op::Txa => set_a(c, c.x),
        Op::Tay => set_y(c, c.a),
        Op::Tya => set_a(c, c.y),
        Op::Txs => with_sp(c, c.x),
        Op::Tsx => set_x(c, c.sp),
        Op::Inx => set_x(c, add8(c.x, 1)),
        Op::Iny => set_y(c, add8(c.y, 1)),
        Op::Dex => set_x(c, add8(c.x, -1)),
        Op::Dey => set_y(c, add8(c.y, -1)),
        Op::Clc => with_status(c, with_flag(c.status.0, CARRY, false)),
        Op::Sec => with_status(c, with_flag(c.status.0, CARRY, true)),
        Op::Cli => with_status(c, with_flag(c.status.0, INTERRUPT, false)),
        Op::Sei => with_status(c, with_flag(c.status.0, INTERRUPT, true)),
        Op::Clv => with_status(c, with_flag(c.status.0, OVERFLOW, false)),
        Op::Cld => with_status(c, with_flag(c.status.0, DECIMAL, false)),
        Op::Sed => with_status(c, with_flag(c.status.0, DECIMAL, true)),
        _ => c,
    }
}

// ---------------------------------------------------------------------------
// Bus sequences
// ---------------------------------------------------------------------------

/// Fetch the byte at PC and advance PC (one bus read).
pub open spec fn fetch<M: Memory>(c: Cpu, m: M::Model) -> (u8, Cpu, M::Model) {
    (M::read_value(m, c.pc), with_pc(c, add16(c.pc, 1)), M::after_read(m, c.pc))
}

/// Indexed address `base + idx`; the read at the unfixed address happens
/// when the index carries into the high byte, or always when `fixup`.
pub open spec fn indexed<M: Memory>(base: u16, idx: u8, fixup: bool, c: Cpu, m: M::Model, cy: u8) -> (
    u16,
    Cpu,
    M::Model,
    u8,
) {
    let eff = add16(base, idx as int);
    if fixup || page(base) != page(eff) {
        (eff, c, M::after_read(m, unfixed_addr(base, eff)), (cy + 1) as u8)
    } else {
        (eff, c, m, cy)
    }
}

/// Operand address of `mode`, with the registers and bus state after the
/// address bytes were fetched, and the number of bus cycles spent.
pub open spec fn operand_address<M: Memory>(mode: AddrMode, fixup: bool, c: Cpu, m: M::Model) -> (
    u16,
    Cpu,
    M::Model,
    u8,
) {
    match mode {
        AddrMode::ZeroPage => {
            let (z, c1, m1) = fetch::<M>(c, m);
            (z as u16, c1, m1, 1)
        },
        AddrMode::ZeroPageX => {
            let (b, c1, m1) = fetch::<M>(c, m);
            (add8(b, c.x as int) as u16, c1, M::after_read(m1, b as u16), 2)
        },
        AddrMode::ZeroPageY => {
            let (b, c1, m1) = fetch::<M>(c, m);
            (add8(b, c.y as int) as u16, c1, M::after_read(m1, b as u16), 2)
        },
        AddrMode::Absolute => {
            let (lo, c1, m1) = fetch::<M>(c, m);
            let (hi, c2, m2) = fetch::<M>(c1, m1);
            (word(lo, hi), c2, m2, 2)
        },
        AddrMode::AbsoluteX => {
            let (lo, c1, m1) = fetch::<M>(c, m);
            let (hi, c2, m2) = fetch::<M>(c1, m1);
            indexed::<M>(word(lo, hi), c.x, fixup, c2, m2, 2)
        },
        AddrMode::AbsoluteY => {
            let (lo, c1, m1) = fetch::<M>(c, m);
            let (hi, c2, m2) = fetch::<M>(c1, m1);
            indexed::<M>(word(lo, hi), c.y, fixup, c2, m2, 2)
        },
        AddrMode::IndirectX => {
            let (b, c1, m1) = fetch::<M>(c, m);
            let m2 = M::after_read(m1, b as u16);
            let p = add8(b, c.x as int);
            let lo = M::read_value(m2, p as u16);
            let m3 = M::after_read(m2, p as u16);
            let hi = M::read_value(m3, add8(p, 1) as u16);
            let m4 = M::after_read(m3, add8(p, 1) as u16);
            (word(lo, hi), c1, m4, 4)
        },
        AddrMode::IndirectY => {
            let (z, c1, m1) = fetch::<M>(c, m);
            let lo = M::read_value(m1, z as u16);
            let m2 = M::after_read(m1, z as u16);
            let hi = M::read_value(m2, add8(z, 1) as u16);
            let m3 = M::after_read(m2, add8(z, 1) as u16);
            indexed::<M>(word(lo, hi), c.y, fixup, c1, m3, 3)
        },
        _ => (0, c, m, 0),
    }
}

/// Push `v`: write at the stack pointer, then decrement it.
pub open spec fn push<M: Memory>(c: Cpu, m: M::Model, v: u8) -> (Cpu, M::Model) {
    (with_sp(c, add8(c.sp, -1)), M::after_write(m, stack_addr(c.sp), v))
}

/// Pull: increment the stack pointer, then read there.
pub open spec fn pull<M: Memory>(c: Cpu, m: M::Model) -> (u8, Cpu, M::Model) {
    let sp = add8(c.sp, 1);
    (M::read_value(m, stack_addr(sp)), with_sp(c, sp), M::after_read(m, stack_addr(sp)))
}

/// PHA, PHP, PLA, PLP after the opcode fetch.
pub open spec fn stack_op<M: Memory>(op: Op, c: Cpu, m: M::Model) -> (Cpu, M::Model, u8) {
    let m1 = M::after_read(m, c.pc);
    match op {
        Op::Pha => {
            let (c2, m2) = push::<M>(c, m1, c.a);
            (c2, m2, 2)
        },
        Op::Php => {
            let (c2, m2) = push::<M>(c, m1, c.status.0 | 0x30);
            (c2, m2, 2)
        },
        Op::Pla => {
            let m2 = M::after_read(m1, stack_addr(c.sp));
            let (v, c3, m3) = pull::<M>(c, m2);
            (set_a(c3, v), m3, 3)
        },
        _ => {
            let m2 = M::after_read(m1, stack_addr(c.sp));
            let (v, c3, m3) = pull::<M>(c, m2);
            (with_status(c3, v & 0xCF), m3, 3)
        },
    }
}

/// A straight-line instruction after the opcode fetch: registers, bus state
/// and the bus cycles it spends.
pub open spec fn exec_straight<M: Memory>(op: Op, mode: AddrMode, c: Cpu, m: M::Model) -> (
    Cpu,
    M::Model,
    u8,
) {
    if op_is_stack(op) {
        stack_op::<M>(op, c, m)
    } else if mode == AddrMode::Implied {
        (implied_op_spec(op, c), M::after_read(m, c.pc), 1)
    } else if mode == AddrMode::Immediate {
        let (v, c1, m1) = fetch::<M>(c, m);
        (read_op_spec(op, c1, v), m1, 1)
    } else if op_is_store(op) {
        let (a, c1, m1, cy) = operand_address::<M>(mode, true, c, m);
        (c1, M::after_write(m1, a, store_value(op, c)), (cy + 1) as u8)
    } else if op_is_rmw(op) {
        let (a, c1, m1, cy) = operand_address::<M>(mode, true, c, m);
        let v = M::read_value(m1, a);
        let m2 = M::after_read(m1, a);
        let m3 = M::after_write(m2, a, v);
        let (nv, c2) = rmw_op_spec(op, c1, v);
        (c2, M::after_write(m3, a, nv), (cy + 3) as u8)
    } else {
        let (a, c1, m1, cy) = operand_address::<M>(mode, false, c, m);
        let v = M::read_value(m1, a);
        (read_op_spec(op, c1, v), M::after_read(m1, a), (cy + 1) as u8)
    }
}

/// Branch condition of a conditional branch opcode.
pub open spec fn branch_taken(opcode: u8, s: u8) -> bool {
    match opcode {
        0x90 => !has_flag(s, CARRY),
        0xB0 => has_flag(s, CARRY),
        0xF0 => has_flag(s, ZERO),
        0x30 => has_flag(s, NEGATIVE),
        0xD0 => !has_flag(s, ZERO),
        0x10 => !has_flag(s, NEGATIVE),
        0x50 => !has_flag(s, OVERFLOW),
        _ => has_flag(s, OVERFLOW),
    }
}

/// The eight conditional branches test one flag each: BPL/BMI the
/// NEGATIVE flag, BVC/BVS OVERFLOW, BCC/BCS CARRY, BNE/BEQ ZERO; the first
/// of each pair is taken when its flag is clear, the second when it is set.
pub proof fn lemma_branch_flags(s: u8)
    ensures
        branch_taken(0x10, s) == !has_flag(s, NEGATIVE),
        branch_taken(0x30, s) == has_flag(s, NEGATIVE),
        branch_taken(0x50, s) == !has_flag(s, OVERFLOW),
        branch_taken(0x70, s) == has_flag(s, OVERFLOW),
        branch_taken(0x90, s) == !has_flag(s, CARRY),
        branch_taken(0xB0, s) == has_flag(s, CARRY),
        branch_taken(0xD0, s) == !has_flag(s, ZERO),
        branch_taken(0xF0, s) == has_flag(s, ZERO),
{
}

pub open spec fn is_branch_opcode(opcode: u8) -> bool {
    opcode == 0x10 || opcode == 0x30 || opcode == 0x50 || opcode == 0x70 || opcode == 0x90
        || opcode == 0xB0 || opcode == 0xD0 || opcode == 0xF0
}

/// A conditional branch after the opcode fetch.
pub open spec fn branch_spec<M: Memory>(opcode: u8, c: Cpu, m: M::Model) -> (Cpu, M::Model, u8) {
    let (off, c1, m1) = fetch::<M>(c, m);
    if branch_taken(opcode, c.status.0) {
        let m2 = M::after_read(m1, c1.pc);
        let target = add16(c1.pc, signed_offset(off));
        if page(c1.pc) != page(target) {
            (with_pc(c1, target), M::after_read(m2, unfixed_addr(c1.pc, target)), 3)
        } else {
            (with_pc(c1, target), m2, 2)
        }
    } else {
        (c1, m1, 1)
    }
}

/// JMP absolute after the opcode fetch.
pub open spec fn jmp_abs_spec<M: Memory>(c: Cpu, m: M::Model) -> (Cpu, M::Model, u8) {
    let (lo, c1, m1) = fetch::<M>(c, m);
    let hi = M::read_value(m1, c1.pc);
    (with_pc(c1, word(lo, hi)), M::after_read(m1, c1.pc), 2)
}

/// JMP indirect after the opcode fetch; the pointer's high byte is read
/// without carrying into the pointer's page (the NMOS page-boundary bug).
pub open spec fn jmp_ind_spec<M: Memory>(c: Cpu, m: M::Model) -> (Cpu, M::Model, u8) {
    let (lo, c1, m1) = fetch::<M>(c, m);
    let (hi, c2, m2) = fetch::<M>(c1, m1);
    let ptr = word(lo, hi);
    let tlo = M::read_value(m2, ptr);
    let m3 = M::after_read(m2, ptr);
    let hi_addr = unfixed_addr(ptr, add16(ptr, 1));
    let thi = M::read_value(m3, hi_addr);
    (with_pc(c2, word(tlo, thi)), M::after_read(m3, hi_addr), 4)
}

/// JSR after the opcode fetch: pushes the address of its last byte.
pub open spec fn jsr_spec<M: Memory>(c: Cpu, m: M::Model) -> (Cpu, M::Model, u8) {
    let (lo, c1, m1) = fetch::<M>(c, m);
    let m2 = M::after_read(m1, stack_addr(c.sp));
    let ret = c1.pc;
    let (c3, m3) = push::<M>(c1, m2, (ret / 256) as u8);
    let (c4, m4) = push::<M>(c3, m3, (ret % 256) as u8);
    let hi = M::read_value(m4, ret);
    (with_pc(c4, word(lo, hi)), M::after_read(m4, ret), 5)
}

/// RTS after the opcode fetch: returns to the pulled address plus one.
pub open spec fn rts_spec<M: Memory>(c: Cpu, m: M::Model) -> (Cpu, M::Model, u8) {
    let m1 = M::after_read(m, c.pc);
    let m2 = M::after_read(m1, stack_addr(c.sp));
    let (lo, c3, m3) = pull::<M>(c, m2);
    let (hi, c4, m4) = pull::<M>(c3, m3);
    let ret = word(lo, hi);
    (with_pc(c4, add16(ret, 1)), M::after_read(m4, ret), 5)
}

/// RTI after the opcode fetch: pulls status, then PC.
pub open spec fn rti_spec<M: Memory>(c: Cpu, m: M::Model) -> (Cpu, M::Model, u8) {
    let m1 = M::after_read(m, c.pc);
    let m2 = M::after_read(m1, stack_addr(c.sp));
    let (f, c3, m3) = pull::<M>(c, m2);
    let c3s = with_status(c3, f & 0xCF);
    let (lo, c4, m4) = pull::<M>(c3s, m3);
    let (hi, c5, m5) = pull::<M>(c4, m4);
    (with_pc(c5, word(lo, hi)), m5, 5)
}

/// BRK after the opcode fetch: pushes PC + 1 and the status with BREAK set,
/// sets INTERRUPT, and jumps through the IRQ vector.
pub open spec fn brk_spec<M: Memory>(c: Cpu, m: M::Model) -> (Cpu, M::Model, u8) {
    let m1 = M::after_read(m, c.pc);
    let c1 = with_pc(c, add16(c.pc, 1));
    let (c2, m2) = push::<M>(c1, m1, (c1.pc / 256) as u8);
    let (c3, m3) = push::<M>(c2, m2, (c1.pc % 256) as u8);
    let (c4, m4) = push::<M>(c3, m3, c.status.0 | 0x30);
    let c5 = with_status(c4, with_flag(c.status.0, INTERRUPT, true));
    let lo = M::read_value(m4, 0xFFFE);
    let m5 = M::after_read(m4, 0xFFFE);
    let hi = M::read_value(m5, 0xFFFF);
    (with_pc(c5, word(lo, hi)), M::after_read(m5, 0xFFFF), 6)
}

/// JMP, JSR, RTS, RTI and BRK after the opcode fetch.
pub open spec fn jump_spec<M: Memory>(opcode: u8, c: Cpu, m: M::Model) -> (Cpu, M::Model, u8) {
    if opcode == 0x4C {
        jmp_abs_spec::<M>(c, m)
    } else if opcode == 0x6C {
        jmp_ind_spec::<M>(c, m)
    } else if opcode == 0x20 {
        jsr_spec::<M>(c, m)
    } else if opcode == 0x60 {
        rts_spec::<M>(c, m)
    } else if opcode == 0x40 {
        rti_spec::<M>(c, m)
    } else {
        brk_spec::<M>(c, m)
    }
}

/// One instruction: registers, bus state and cycle count after executing the
/// opcode at PC.
pub open spec fn step_spec<M: Memory>(c: Cpu, m: M::Model) -> (Cpu, M::Model, u8) {
    let (opcode, c1, m1) = fetch::<M>(c, m);
    let (c2, m2, cy) = match decode(opcode) {
        Some((op, mode)) => exec_straight::<M>(op, mode, c1, m1),
        None => if is_branch_opcode(opcode) {
            branch_spec::<M>(opcode, c1, m1)
        } else {
            jump_spec::<M>(opcode, c1, m1)
        },
    };
    (Cpu { cycles: (c.cycles + cy + 1) as u64, ..c2 }, m2, (cy + 1) as u8)
}

/// The opcode a step executes.
pub open spec fn next_opcode<M: Memory>(c: Cpu, m: M::Model) -> u8 {
    M::read_value(m, c.pc)
}

/// Bus cycles and PC advance of operand-address fetching.
proof fn lemma_operand_address_timing<M: Memory>(mode: AddrMode, fixup: bool, c: Cpu, m: M::Model)
    requires
        mode != AddrMode::Implied,
        mode != AddrMode::Immediate,
    ensures
        ({
            let (a, c1, m1, cy) = operand_address::<M>(mode, fixup, c, m);
            let indexed = mode == AddrMode::AbsoluteX || mode == AddrMode::AbsoluteY || mode
                == AddrMode::IndirectY;
            let base: int = match mode {
                AddrMode::ZeroPage => 1,
                AddrMode::ZeroPageX | AddrMode::ZeroPageY | AddrMode::Absolute
                | AddrMode::AbsoluteX | AddrMode::AbsoluteY => 2,
                AddrMode::IndirectY => 3,
                _ => 4,
            };
            &&& c1 == with_pc(c, add16(c.pc, mode_size(mode) - 1))
            &&& !indexed ==> cy == base
            &&& indexed && fixup ==> cy == base + 1
            &&& indexed && !fixup ==> (cy == base || cy == base + 1)
        }),
{
}

/// Cycles and PC advance of a straight-line instruction after its fetch.
proof fn lemma_straight_timing<M: Memory>(opcode: u8, c: Cpu, m: M::Model)
    requires
        decode(opcode) is Some,
    ensures
        ({
            let (op, mode) = decode(opcode)->0;
            let (c2, m2, cy) = exec_straight::<M>(op, mode, c, m);
            &&& c2.pc == add16(c.pc, mode_size(mode) - 1)
            &&& c2.cycles == c.cycles
            &&& (cy + 1 == straight_cycles(op, mode) || (op_is_load(op) && (mode
                == AddrMode::AbsoluteX || mode == AddrMode::AbsoluteY || mode
                == AddrMode::IndirectY) && cy == straight_cycles(op, mode)))
        }),
{
    let (op, mode) = decode(opcode)->0;
    if !op_is_stack(op) && mode != AddrMode::Implied && mode != AddrMode::Immediate {
        lemma_operand_address_timing::<M>(mode, op_is_store(op) || op_is_rmw(op), c, m);
    }
}

/// Every instruction the CPU implements takes from two to seven cycles.
pub proof fn lemma_step_cycles_in_range<M: Memory>(c: Cpu, m: M::Model)
    requires
        is_legal_opcode(next_opcode::<M>(c, m)),
        c.cycles <= u64::MAX - 7,
    ensures
        2 <= step_spec::<M>(c, m).2 <= 7,
{
    let opcode = next_opcode::<M>(c, m);
    lemma_step_matches_tables::<M>(c, m);
    lemma_cycle_table_range(opcode);
    crate::rom_compiler::lemma_tables_small(opcode);
}


/// Timing and length of every instruction agree with the opcode tables: a
/// step takes the table's base cycles, plus one for an indexed load whose
/// index crosses a page and one or two for a taken branch; a straight-line
/// instruction advances PC by the table's length.
#[verifier::spinoff_prover]
#[verifier::rlimit(50)]
pub proof fn lemma_step_matches_tables<M: Memory>(c: Cpu, m: M::Model)
    requires
        is_legal_opcode(next_opcode::<M>(c, m)),
        c.cycles <= u64::MAX - 7,
    ensures
        ({
            let opcode = next_opcode::<M>(c, m);
            let (c2, m2, cycles) = step_spec::<M>(c, m);
            &&& CYCLE_TABLE[opcode as int] <= cycles <= CYCLE_TABLE[opcode as int] + 2
            &&& c2.cycles == c.cycles + cycles
            &&& decode(opcode) matches Some((op, mode)) ==> {
                &&& c2.pc == add16(c.pc, SIZE_TABLE[opcode as int] as int)
                &&& (cycles == CYCLE_TABLE[opcode as int] || (op_is_load(op) && (mode
                    == AddrMode::AbsoluteX || mode == AddrMode::AbsoluteY || mode
                    == AddrMode::IndirectY) && cycles == CYCLE_TABLE[opcode as int] + 1))
            }
            &&& !is_branch_opcode(opcode) && decode(opcode) is None ==> cycles
                == CYCLE_TABLE[opcode as int]
        }),
{
    let opcode = next_opcode::<M>(c, m);
    let (opc, c1, m1) = fetch::<M>(c, m);
    lemma_tables_match_decode(opcode);
    let (c2, m2, cycles) = step_spec::<M>(c, m);
    if decode(opcode) is Some {
        lemma_straight_timing::<M>(opcode, c1, m1);
        assert(c1.pc == add16(c.pc, 1));
        assert(c2.pc == add16(c.pc, SIZE_TABLE[opcode as int] as int));
    } else if is_branch_opcode(opcode) {
        assert(CYCLE_TABLE[opcode as int] == 2);
        let (b2, bm2, bcy) = branch_spec::<M>(opcode, c1, m1);
        assert(1 <= bcy <= 3);
    } else {
        let (j2, jm2, jcy) = jump_spec::<M>(opcode, c1, m1);
        assert(jcy + 1 == CYCLE_TABLE[opcode as int]);
    }
}


// ---------------------------------------------------------------------------
// BREAK and UNUSED stay out of the register
// ---------------------------------------------------------------------------

/// The status register holds neither BREAK nor UNUSED: those bits exist only
/// in status bytes pushed on the stack.
pub open spec fn status_clean(c: Cpu) -> bool {
    c.status.0 & 0x30 == 0
}

/// Setting or clearing any flag but BREAK and UNUSED, and masking a pulled
/// byte with $CF, keep those two bits clear.
proof fn lemma_flag_updates_clean()
    ensures
        forall|s: u8, b: bool| s & 0x30 == 0 ==> #[trigger] with_flag(s, CARRY, b) & 0x30 == 0,
        forall|s: u8, b: bool| s & 0x30 == 0 ==> #[trigger] with_flag(s, ZERO, b) & 0x30 == 0,
        forall|s: u8, b: bool| s & 0x30 == 0 ==> #[trigger] with_flag(s, INTERRUPT, b) & 0x30 == 0,
        forall|s: u8, b: bool| s & 0x30 == 0 ==> #[trigger] with_flag(s, DECIMAL, b) & 0x30 == 0,
        forall|s: u8, b: bool| s & 0x30 == 0 ==> #[trigger] with_flag(s, OVERFLOW, b) & 0x30 == 0,
        forall|s: u8, b: bool| s & 0x30 == 0 ==> #[trigger] with_flag(s, NEGATIVE, b) & 0x30 == 0,
        forall|v: u8| #[trigger] (v & 0xCF) & 0x30 == 0,
{
    assert forall|s: u8, b: bool|
        #![trigger with_flag(s, CARRY, b)]
        #![trigger with_flag(s, ZERO, b)]
        #![trigger with_flag(s, INTERRUPT, b)]
        #![trigger with_flag(s, DECIMAL, b)]
        #![trigger with_flag(s, OVERFLOW, b)]
        #![trigger with_flag(s, NEGATIVE, b)]
        s & 0x30 == 0 implies {
            &&& with_flag(s, CARRY, b) & 0x30 == 0
            &&& with_flag(s, ZERO, b) & 0x30 == 0
            &&& with_flag(s, INTERRUPT, b) & 0x30 == 0
            &&& with_flag(s, DECIMAL, b) & 0x30 == 0
            &&& with_flag(s, OVERFLOW, b) & 0x30 == 0
            &&& with_flag(s, NEGATIVE, b) & 0x30 == 0
        } by {
        assert(s & 0x30 == 0 ==> {
            &&& with_flag(s, CARRY, b) & 0x30 == 0
            &&& with_flag(s, ZERO, b) & 0x30 == 0
            &&& with_flag(s, INTERRUPT, b) & 0x30 == 0
            &&& with_flag(s, DECIMAL, b) & 0x30 == 0
            &&& with_flag(s, OVERFLOW, b) & 0x30 == 0
            &&& with_flag(s, NEGATIVE, b) & 0x30 == 0
        }) by (bit_vector);
    }
    assert forall|v: u8| #[trigger] (v & 0xCF) & 0x30 == 0 by {
        assert((v & 0xCF) & 0x30 == 0) by (bit_vector);
    }
}

/// Register-only operations keep BREAK and UNUSED clear.
proof fn lemma_ops_clean(op: Op, c: Cpu, v: u8)
    requires
        status_clean(c),
    ensures
        status_clean(read_op_spec(op, c, v)),
        status_clean(rmw_op_spec(op, c, v).1),
        status_clean(implied_op_spec(op, c)),
{
    lemma_flag_updates_clean();
}

/// Every instruction keeps BREAK and UNUSED out of the status register;
/// PHP and BRK set both only in the byte they push.
#[verifier::spinoff_prover]
#[verifier::rlimit(60)]
pub proof fn lemma_step_keeps_status_clean<M: Memory>(c: Cpu, m: M::Model)
    requires
        status_clean(c),
    ensures
        status_clean(step_spec::<M>(c, m).0),
{
    lemma_flag_updates_clean();
    let (opcode, c1, m1) = fetch::<M>(c, m);
    match decode(opcode) {
        Some((op, mode)) => {
            if !op_is_stack(op) && mode != AddrMode::Implied {
                let (v, c1b, m1b) = fetch::<M>(c1, m1);
                lemma_ops_clean(op, c1b, v);
                let (a, c2, m2, cy) = operand_address::<M>(mode, op_is_store(op) || op_is_rmw(op), c1, m1);
                assert(c2.status == c1.status);
                lemma_ops_clean(op, c2, M::read_value(m2, a));
            } else {
                lemma_ops_clean(op, c1, 0);
            }
        },
        None => {},
    }
}

} // verus!