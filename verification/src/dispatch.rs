//! Opcode dispatch table: a flat 256-entry lookup of instruction handlers.
//! Each handler knows its addressing mode statically and reads only the
//! bytes it needs (no dummy bus cycles); it returns the cycles the
//! instruction takes.
use vstd::prelude::*;
use crate::cpu::{
    Cpu, Memory, Status, make_word, stack_address, page_crossed, high_byte, low_byte, CARRY, ZERO,
    NEGATIVE, OVERFLOW,
};
use crate::isa::{
    add16, add8, word, page, signed_offset, stack_addr, with_pc, with_status, push, pull,
    read_op_spec, rmw_op_spec, store_value, implied_op_spec, branch_taken, is_branch_opcode,
};
use crate::cpu::{with_flag, INTERRUPT};
use crate::rom_compiler::{
    Op, AddrMode, decode, classify, is_branch, op_is_load, op_is_rmw, op_is_stack, op_is_store,
    mode_size, straight_cycles,
};

verus! {

/// What the dispatch table holds for an opcode.
#[derive(Clone, Copy, Debug, PartialEq, Eq, Structural)]
pub enum Handler {
    /// Not an instruction the CPU executes.
    Illegal,
    /// A straight-line instruction.
    Straight(Op, AddrMode),
    /// A conditional branch (by its opcode).
    Branch(u8),
    JmpAbs,
    JmpInd,
    Jsr,
    Rts,
    Rti,
    Brk,
}

/// The handler of every opcode.
pub open spec fn handler_for(opcode: u8) -> Handler {
    match decode(opcode) {
        Some((op, mode)) => Handler::Straight(op, mode),
        None => if is_branch_opcode(opcode) {
            Handler::Branch(opcode)
        } else if opcode == 0x4C {
            Handler::JmpAbs
        } else if opcode == 0x6C {
            Handler::JmpInd
        } else if opcode == 0x20 {
            Handler::Jsr
        } else if opcode == 0x60 {
            Handler::Rts
        } else if opcode == 0x40 {
            Handler::Rti
        } else if opcode == 0x00 {
            Handler::Brk
        } else {
            Handler::Illegal
        },
    }
}

/// Handlers that advance PC with a plain (overflow-checked) addition, and by
/// how much: all but the loads, stores and ALU operations, which wrap.
pub open spec fn plain_advance(h: Handler) -> int {
    match h {
        Handler::Straight(op, mode) => if op == Op::Lda || op == Op::Ldx || op == Op::Ldy
            || op == Op::Sta || op == Op::Stx || op == Op::Sty || op == Op::Adc || op == Op::Sbc
            || op == Op::And || op == Op::Ora || op == Op::Eor {
            0
        } else {
            mode_size(mode) as int
        },
        Handler::Jsr | Handler::Brk => 2,
        _ => 0,
    }
}

/// Inputs a handler runs on: a real instruction, and a PC that a plain
/// advance does not carry past $FFFF.
pub open spec fn handler_runs(h: Handler, pc: u16) -> bool {
    h != Handler::Illegal && pc + plain_advance(h) <= 0xFFFF
}

/// Read `a`: the value and the bus state after.
pub open spec fn rd<M: Memory>(m: M::Model, a: u16) -> (u8, M::Model) {
    (M::read_value(m, a), M::after_read(m, a))
}

/// Operand address of `mode` for the instruction at `c.pc`, read straight
/// from its operand bytes (and the zero-page pointer for indirect modes).
pub open spec fn handler_address<M: Memory>(mode: AddrMode, c: Cpu, m: M::Model) -> (u16, M::Model) {
    let p1 = add16(c.pc, 1);
    let p2 = add16(c.pc, 2);
    let (b, m1) = rd::<M>(m, p1);
    let (h, m2) = rd::<M>(m1, p2);
    match mode {
        AddrMode::ZeroPage => (b as u16, m1),
        AddrMode::ZeroPageX => (add8(b, c.x as int) as u16, m1),
        AddrMode::ZeroPageY => (add8(b, c.y as int) as u16, m1),
        AddrMode::Absolute => (word(b, h), m2),
        AddrMode::AbsoluteX => (add16(word(b, h), c.x as int), m2),
        AddrMode::AbsoluteY => (add16(word(b, h), c.y as int), m2),
        AddrMode::IndirectX => {
            let ptr = add8(b, c.x as int);
            let (lo, m3) = rd::<M>(m1, ptr as u16);
            let (hi, m4) = rd::<M>(m3, add8(ptr, 1) as u16);
            (word(lo, hi), m4)
        },
        AddrMode::IndirectY => {
            let (lo, m3) = rd::<M>(m1, b as u16);
            let (hi, m4) = rd::<M>(m3, add8(b, 1) as u16);
            (add16(word(lo, hi), c.y as int), m4)
        },
        _ => (0, m),
    }
}

/// Indexed modes whose loads pay a cycle when the index crosses a page.
pub open spec fn penalty_mode(mode: AddrMode) -> bool {
    mode == AddrMode::AbsoluteX || mode == AddrMode::AbsoluteY || mode == AddrMode::IndirectY
}

/// Page-cross penalty of an indexed mode, found by reading the base address
/// again: 1 when the index carries into the high byte.
pub open spec fn handler_penalty<M: Memory>(mode: AddrMode, c: Cpu, m: M::Model) -> (u8, M::Model) {
    let p1 = add16(c.pc, 1);
    let p2 = add16(c.pc, 2);
    let (b, m1) = rd::<M>(m, p1);
    let (h, m2) = rd::<M>(m1, p2);
    let crosses = |base: u16, idx: u8| if page(base) != page(add16(base, idx as int)) {
        1u8
    } else {
        0u8
    };
    match mode {
        AddrMode::AbsoluteX => (crosses(word(b, h), c.x), m2),
        AddrMode::AbsoluteY => (crosses(word(b, h), c.y), m2),
        AddrMode::IndirectY => {
            let (lo, m3) = rd::<M>(m1, b as u16);
            let (hi, m4) = rd::<M>(m3, add8(b, 1) as u16);
            (crosses(word(lo, hi), c.y), m4)
        },
        _ => (0, m),
    }
}

/// A straight-line handler: registers, bus state and cycles.
pub open spec fn straight_handler<M: Memory>(op: Op, mode: AddrMode, c: Cpu, m: M::Model) -> (
    Cpu,
    M::Model,
    u8,
) {
    let next = add16(c.pc, mode_size(mode) as int);
    let cy = straight_cycles(op, mode);
    if op_is_stack(op) {
        if op == Op::Pha || op == Op::Php {
            let v = if op == Op::Pha {
                c.a
            } else {
                c.status.0 | 0x30
            };
            let (c1, m1) = push::<M>(c, m, v);
            (with_pc(c1, next), m1, cy)
        } else {
            let (v, c1, m1) = pull::<M>(c, m);
            let c2 = if op == Op::Pla {
                read_op_spec(Op::Lda, c1, v)
            } else {
                with_status(c1, v & 0xCF)
            };
            (with_pc(c2, next), m1, cy)
        }
    } else if mode == AddrMode::Implied {
        (with_pc(implied_op_spec(op, c), next), m, cy)
    } else if mode == AddrMode::Immediate {
        let (v, m1) = rd::<M>(m, add16(c.pc, 1));
        (with_pc(read_op_spec(op, c, v), next), m1, cy)
    } else if op_is_store(op) {
        let (a, m1) = handler_address::<M>(mode, c, m);
        (with_pc(c, next), M::after_write(m1, a, store_value(op, c)), cy)
    } else if op_is_rmw(op) {
        let (a, m1) = handler_address::<M>(mode, c, m);
        let (v, m2) = rd::<M>(m1, a);
        let (nv, c2) = rmw_op_spec(op, c, v);
        (with_pc(c2, next), M::after_write(m2, a, nv), cy)
    } else if op == Op::Cmp && penalty_mode(mode) {
        // CMP checks the page cross before it reads the operand
        let (p, m1) = handler_penalty::<M>(mode, c, m);
        let (a, m2) = handler_address::<M>(mode, c, m1);
        let (v, m3) = rd::<M>(m2, a);
        (with_pc(read_op_spec(op, c, v), next), m3, (cy + p) as u8)
    } else {
        let (a, m1) = handler_address::<M>(mode, c, m);
        let (v, m2) = rd::<M>(m1, a);
        let c2 = read_op_spec(op, c, v);
        let (p, m3) = if op_is_load(op) && penalty_mode(mode) {
            handler_penalty::<M>(mode, c2, m2)
        } else {
            (0u8, m2)
        };
        (with_pc(c2, next), m3, (cy + p) as u8)
    }
}

/// What a handler does: registers, bus state and cycles.
pub open spec fn handler_spec<M: Memory>(h: Handler, c: Cpu, m: M::Model) -> (Cpu, M::Model, u8) {
    let p1 = add16(c.pc, 1);
    let p2 = add16(c.pc, 2);
    match h {
        Handler::Straight(op, mode) => straight_handler::<M>(op, mode, c, m),
        Handler::Branch(opcode) => if branch_taken(opcode, c.status.0) {
            let (off, m1) = rd::<M>(m, p1);
            let target = add16(p2, signed_offset(off));
            let cy: u8 = if page(p2) != page(target) {
                4
            } else {
                3
            };
            (with_pc(c, target), m1, cy)
        } else {
            (with_pc(c, p2), m, 2)
        },
        Handler::JmpAbs => {
            let (lo, m1) = rd::<M>(m, p1);
            let (hi, m2) = rd::<M>(m1, p2);
            (with_pc(c, word(lo, hi)), m2, 3)
        },
        Handler::JmpInd => {
            let (lo, m1) = rd::<M>(m, p1);
            let (hi, m2) = rd::<M>(m1, p2);
            let a = word(lo, hi);
            let (tlo, m3) = rd::<M>(m2, a);
            let (thi, m4) = rd::<M>(m3, (page(a) * 256 + add16(a, 1) % 256) as u16);
            (with_pc(c, word(tlo, thi)), m4, 5)
        },
        Handler::Jsr => {
            let ret = (c.pc + 2) as u16;
            let (c1, m1) = push::<M>(c, m, (ret / 256) as u8);
            let (c2, m2) = push::<M>(c1, m1, (ret % 256) as u8);
            let (lo, m3) = rd::<M>(m2, p1);
            let (hi, m4) = rd::<M>(m3, p2);
            (with_pc(c2, word(lo, hi)), m4, 6)
        },
        Handler::Rts => {
            let (lo, c1, m1) = pull::<M>(c, m);
            let (hi, c2, m2) = pull::<M>(c1, m1);
            (with_pc(c2, add16(word(lo, hi), 1)), m2, 6)
        },
        Handler::Rti => {
            let (s, c1, m1) = pull::<M>(c, m);
            let (lo, c2, m2) = pull::<M>(with_status(c1, s & 0xCF), m1);
            let (hi, c3, m3) = pull::<M>(c2, m2);
            (with_pc(c3, word(lo, hi)), m3, 6)
        },
        Handler::Brk => {
            let ret = (c.pc + 2) as u16;
            let (c1, m1) = push::<M>(c, m, (ret / 256) as u8);
            let (c2, m2) = push::<M>(c1, m1, (ret % 256) as u8);
            let (c3, m3) = push::<M>(c2, m2, c.status.0 | 0x30);
            let c4 = with_status(c3, with_flag(c.status.0, INTERRUPT, true));
            let (lo, m4) = rd::<M>(m3, 0xFFFE);
            let (hi, m5) = rd::<M>(m4, 0xFFFF);
            (with_pc(c4, word(lo, hi)), m5, 7)
        },
        Handler::Illegal => (c, m, 0),
    }
}


// ── Addressing mode helpers ─────────────────────────────────────────

fn read_u8<M: Memory>(cpu: &Cpu, mem: &mut M) -> (r: u8)
    requires
        M::ready(old(mem).model()),
    ensures
        (r, final(mem).model()) == rd::<M>(old(mem).model(), add16(cpu.pc, 1)),
        M::ready(final(mem).model()),
{
    mem.read(cpu.pc.wrapping_add(1))
}

fn read_u16<M: Memory>(cpu: &Cpu, mem: &mut M) -> (r: u16)
    requires
        M::ready(old(mem).model()),
    ensures
        ({
            let (lo, m1) = rd::<M>(old(mem).model(), add16(cpu.pc, 1));
            let (hi, m2) = rd::<M>(m1, add16(cpu.pc, 2));
            r == word(lo, hi) && final(mem).model() == m2
        }),
        M::ready(final(mem).model()),
{
    let lo = mem.read(cpu.pc.wrapping_add(1));
    let hi = mem.read(cpu.pc.wrapping_add(2));
    make_word(lo, hi)
}

fn addr_zp<M: Memory>(cpu: &Cpu, mem: &mut M) -> (r: u16)
    requires
        M::ready(old(mem).model()),
    ensures
        (r, final(mem).model()) == handler_address::<M>(AddrMode::ZeroPage, *cpu, old(mem).model()),
        M::ready(final(mem).model()),
{
    read_u8(cpu, mem) as u16
}

fn addr_zpx<M: Memory>(cpu: &Cpu, mem: &mut M) -> (r: u16)
    requires
        M::ready(old(mem).model()),
    ensures
        (r, final(mem).model()) == handler_address::<M>(AddrMode::ZeroPageX, *cpu, old(mem).model()),
        M::ready(final(mem).model()),
{
    read_u8(cpu, mem).wrapping_add(cpu.x) as u16
}

fn addr_zpy<M: Memory>(cpu: &Cpu, mem: &mut M) -> (r: u16)
    requires
        M::ready(old(mem).model()),
    ensures
        (r, final(mem).model()) == handler_address::<M>(AddrMode::ZeroPageY, *cpu, old(mem).model()),
        M::ready(final(mem).model()),
{
    read_u8(cpu, mem).wrapping_add(cpu.y) as u16
}

fn addr_abs<M: Memory>(cpu: &Cpu, mem: &mut M) -> (r: u16)
    requires
        M::ready(old(mem).model()),
    ensures
        (r, final(mem).model()) == handler_address::<M>(AddrMode::Absolute, *cpu, old(mem).model()),
        M::ready(final(mem).model()),
{
    read_u16(cpu, mem)
}

fn addr_abx<M: Memory>(cpu: &Cpu, mem: &mut M) -> (r: u16)
    requires
        M::ready(old(mem).model()),
    ensures
        (r, final(mem).model()) == handler_address::<M>(AddrMode::AbsoluteX, *cpu, old(mem).model()),
        M::ready(final(mem).model()),
{
    read_u16(cpu, mem).wrapping_add(cpu.x as u16)
}

fn addr_aby<M: Memory>(cpu: &Cpu, mem: &mut M) -> (r: u16)
    requires
        M::ready(old(mem).model()),
    ensures
        (r, final(mem).model()) == handler_address::<M>(AddrMode::AbsoluteY, *cpu, old(mem).model()),
        M::ready(final(mem).model()),
{
    read_u16(cpu, mem).wrapping_add(cpu.y as u16)
}

fn addr_izx<M: Memory>(cpu: &Cpu, mem: &mut M) -> (r: u16)
    requires
        M::ready(old(mem).model()),
    ensures
        (r, final(mem).model()) == handler_address::<M>(AddrMode::IndirectX, *cpu, old(mem).model()),
        M::ready(final(mem).model()),
{
    let ptr = read_u8(cpu, mem).wrapping_add(cpu.x);
    let lo = mem.read(ptr as u16);
    let hi = mem.read(ptr.wrapping_add(1) as u16);
    make_word(lo, hi)
}

fn addr_izy<M: Memory>(cpu: &Cpu, mem: &mut M) -> (r: u16)
    requires
        M::ready(old(mem).model()),
    ensures
        (r, final(mem).model()) == handler_address::<M>(AddrMode::IndirectY, *cpu, old(mem).model()),
        M::ready(final(mem).model()),
{
    let ptr = read_u8(cpu, mem);
    let lo = mem.read(ptr as u16);
    let hi = mem.read(ptr.wrapping_add(1) as u16);
    make_word(lo, hi).wrapping_add(cpu.y as u16)
}

/// Operand address of a memory addressing mode.
fn handler_addr<M: Memory>(mode: AddrMode, cpu: &Cpu, mem: &mut M) -> (r: u16)
    requires
        M::ready(old(mem).model()),
    ensures
        (r, final(mem).model()) == handler_address::<M>(mode, *cpu, old(mem).model()),
        M::ready(final(mem).model()),
{
    match mode {
        AddrMode::ZeroPage => addr_zp(cpu, mem),
        AddrMode::ZeroPageX => addr_zpx(cpu, mem),
        AddrMode::ZeroPageY => addr_zpy(cpu, mem),
        AddrMode::Absolute => addr_abs(cpu, mem),
        AddrMode::AbsoluteX => addr_abx(cpu, mem),
        AddrMode::AbsoluteY => addr_aby(cpu, mem),
        AddrMode::IndirectX => addr_izx(cpu, mem),
        AddrMode::IndirectY => addr_izy(cpu, mem),
        _ => 0,
    }
}

fn page_cross_abx<M: Memory>(cpu: &Cpu, mem: &mut M) -> (r: u8)
    requires
        M::ready(old(mem).model()),
    ensures
        (r, final(mem).model()) == handler_penalty::<M>(AddrMode::AbsoluteX, *cpu, old(mem).model()),
        M::ready(final(mem).model()),
{
    let base = read_u16(cpu, mem);
    if page_crossed(base, base.wrapping_add(cpu.x as u16)) {
        1
    } else {
        0
    }
}

fn page_cross_aby<M: Memory>(cpu: &Cpu, mem: &mut M) -> (r: u8)
    requires
        M::ready(old(mem).model()),
    ensures
        (r, final(mem).model()) == handler_penalty::<M>(AddrMode::AbsoluteY, *cpu, old(mem).model()),
        M::ready(final(mem).model()),
{
    let base = read_u16(cpu, mem);
    if page_crossed(base, base.wrapping_add(cpu.y as u16)) {
        1
    } else {
        0
    }
}

fn page_cross_izy<M: Memory>(cpu: &Cpu, mem: &mut M) -> (r: u8)
    requires
        M::ready(old(mem).model()),
    ensures
        (r, final(mem).model()) == handler_penalty::<M>(AddrMode::IndirectY, *cpu, old(mem).model()),
        M::ready(final(mem).model()),
{
    let ptr = read_u8(cpu, mem);
    let lo = mem.read(ptr as u16);
    let hi = mem.read(ptr.wrapping_add(1) as u16);
    let base = make_word(lo, hi);
    if page_crossed(base, base.wrapping_add(cpu.y as u16)) {
        1
    } else {
        0
    }
}

/// Page-cross penalty of an indexed mode (the base address is read again).
fn page_cross<M: Memory>(mode: AddrMode, cpu: &Cpu, mem: &mut M) -> (r: u8)
    requires
        M::ready(old(mem).model()),
    ensures
        (r, final(mem).model()) == handler_penalty::<M>(mode, *cpu, old(mem).model()),
        M::ready(final(mem).model()),
{
    match mode {
        AddrMode::AbsoluteX => page_cross_abx(cpu, mem),
        AddrMode::AbsoluteY => page_cross_aby(cpu, mem),
        AddrMode::IndirectY => page_cross_izy(cpu, mem),
        _ => 0,
    }
}

/// Base cycles of a straight-line instruction.
fn base_cycles(op: Op, mode: AddrMode) -> (r: u8)
    ensures
        r == straight_cycles(op, mode),
{
    if op == Op::Pha || op == Op::Php {
        3
    } else if op == Op::Pla || op == Op::Plp {
        4
    } else if op == Op::Sta || op == Op::Stx || op == Op::Sty {
        match mode {
            AddrMode::ZeroPage => 3,
            AddrMode::ZeroPageX | AddrMode::ZeroPageY | AddrMode::Absolute => 4,
            AddrMode::AbsoluteX | AddrMode::AbsoluteY => 5,
            _ => 6,
        }
    } else if op == Op::AslM || op == Op::LsrM || op == Op::RolM || op == Op::RorM || op == Op::IncM
        || op == Op::DecM {
        match mode {
            AddrMode::ZeroPage => 5,
            AddrMode::ZeroPageX | AddrMode::Absolute => 6,
            _ => 7,
        }
    } else {
        match mode {
            AddrMode::Implied | AddrMode::Immediate => 2,
            AddrMode::ZeroPage => 3,
            AddrMode::IndirectX => 6,
            AddrMode::IndirectY => 5,
            _ => 4,
        }
    }
}

fn size_of_mode(mode: AddrMode) -> (r: u8)
    ensures
        r == mode_size(mode),
{
    match mode {
        AddrMode::Implied => 1,
        AddrMode::Absolute | AddrMode::AbsoluteX | AddrMode::AbsoluteY => 3,
        _ => 2,
    }
}

/// Whether the handler of `op` advances PC with a wrapping addition.
fn wraps_pc(op: Op) -> (r: bool)
    ensures
        r == (op == Op::Lda || op == Op::Ldx || op == Op::Ldy || op == Op::Sta || op == Op::Stx
            || op == Op::Sty || op == Op::Adc || op == Op::Sbc || op == Op::And || op == Op::Ora
            || op == Op::Eor),
{
    match op {
        Op::Lda | Op::Ldx | Op::Ldy | Op::Sta | Op::Stx | Op::Sty | Op::Adc | Op::Sbc | Op::And
        | Op::Ora | Op::Eor => true,
        _ => false,
    }
}

// ── Handlers ────────────────────────────────────────────────────────

/// A straight-line instruction.
fn run_straight<M: Memory>(op: Op, mode: AddrMode, cpu: &mut Cpu, mem: &mut M) -> (cy: u8)
    requires
        M::ready(old(mem).model()),
        handler_runs(Handler::Straight(op, mode), old(cpu).pc),
    ensures
        (*final(cpu), final(mem).model(), cy) == straight_handler::<M>(
            op,
            mode,
            *old(cpu),
            old(mem).model(),
        ),
        M::ready(final(mem).model()),
{
    let size = size_of_mode(mode);
    let next = if wraps_pc(op) {
        cpu.pc.wrapping_add(size as u16)
    } else {
        cpu.pc + size as u16
    };
    let cy = base_cycles(op, mode);
    if op == Op::Pha || op == Op::Php {
        let v = if op == Op::Pha {
            cpu.a
        } else {
            cpu.status.to_byte_with_break()
        };
        cpu.push(mem, v);
        cpu.pc = next;
        cy
    } else if op == Op::Pla || op == Op::Plp {
        let v = cpu.pull(mem);
        if op == Op::Pla {
            cpu.read_op(Op::Lda, v);
        } else {
            cpu.status = Status::from_byte(v);
        }
        cpu.pc = next;
        cy
    } else if mode == AddrMode::Implied {
        cpu.implied_op(op);
        cpu.pc = next;
        cy
    } else if mode == AddrMode::Immediate {
        let v = read_u8(cpu, mem);
        cpu.read_op(op, v);
        cpu.pc = next;
        cy
    } else if op == Op::Sta || op == Op::Stx || op == Op::Sty {
        let addr = handler_addr(mode, cpu, mem);
        let v = match op {
            Op::Stx => cpu.x,
            Op::Sty => cpu.y,
            _ => cpu.a,
        };
        mem.write(addr, v);
        cpu.pc = next;
        cy
    } else if op == Op::AslM || op == Op::LsrM || op == Op::RolM || op == Op::RorM || op == Op::IncM
        || op == Op::DecM {
        let addr = handler_addr(mode, cpu, mem);
        let v = mem.read(addr);
        let nv = cpu.rmw_op(op, v);
        mem.write(addr, nv);
        cpu.pc = next;
        cy
    } else if op == Op::Cmp && (mode == AddrMode::AbsoluteX || mode == AddrMode::AbsoluteY || mode
        == AddrMode::IndirectY) {
        let p = page_cross(mode, cpu, mem);
        let addr = handler_addr(mode, cpu, mem);
        let v = mem.read(addr);
        cpu.read_op(op, v);
        cpu.pc = next;
        cy + p
    } else {
        let addr = handler_addr(mode, cpu, mem);
        let v = mem.read(addr);
        cpu.read_op(op, v);
        let p = if (op == Op::Lda || op == Op::Ldx || op == Op::Ldy || op == Op::Adc || op
            == Op::Sbc || op == Op::And || op == Op::Ora || op == Op::Eor || op == Op::Cmp || op
            == Op::Cpx || op == Op::Cpy) && (mode == AddrMode::AbsoluteX || mode
            == AddrMode::AbsoluteY || mode == AddrMode::IndirectY) {
            page_cross(mode, cpu, mem)
        } else {
            0
        };
        cpu.pc = next;
        cy + p
    }
}

/// Branch condition of a conditional branch opcode.
fn branch_condition(opcode: u8, s: Status) -> (r: bool)
    ensures
        r == branch_taken(opcode, s.0),
{
    match opcode {
        0x90 => !s.get(CARRY),
        0xB0 => s.get(CARRY),
        0xF0 => s.get(ZERO),
        0x30 => s.get(NEGATIVE),
        0xD0 => !s.get(ZERO),
        0x10 => !s.get(NEGATIVE),
        0x50 => !s.get(OVERFLOW),
        _ => s.get(OVERFLOW),
    }
}

/// A conditional branch: 3 cycles taken (4 across a page), 2 not taken.
fn do_branch<M: Memory>(cpu: &mut Cpu, mem: &mut M, take: bool) -> (cy: u8)
    requires
        M::ready(old(mem).model()),
    ensures
        take ==> ({
            let (off, m1) = rd::<M>(old(mem).model(), add16(old(cpu).pc, 1));
            let next = add16(old(cpu).pc, 2);
            let target = add16(next, signed_offset(off));
            &&& *final(cpu) == with_pc(*old(cpu), target)
            &&& final(mem).model() == m1
            &&& cy == if page(next) != page(target) {
                4u8
            } else {
                3u8
            }
        }),
        !take ==> *final(cpu) == with_pc(*old(cpu), add16(old(cpu).pc, 2)) && final(mem).model()
            == old(mem).model() && cy == 2,
        M::ready(final(mem).model()),
{
    if take {
        let off = read_u8(cpu, mem);
        let next_pc = cpu.pc.wrapping_add(2);
        let target = if off < 128 {
            next_pc.wrapping_add(off as u16)
        } else {
            next_pc.wrapping_sub(256 - off as u16)
        };
        let page_cross = page_crossed(next_pc, target);
        cpu.pc = target;
        if page_cross {
            4
        } else {
            3
        }
    } else {
        cpu.pc = cpu.pc.wrapping_add(2);
        2
    }
}

fn jmp_ind<M: Memory>(cpu: &mut Cpu, mem: &mut M) -> (cy: u8)
    requires
        M::ready(old(mem).model()),
    ensures
        (*final(cpu), final(mem).model(), cy) == handler_spec::<M>(
            Handler::JmpInd,
            *old(cpu),
            old(mem).model(),
        ),
        M::ready(final(mem).model()),
{
    let addr = read_u16(cpu, mem);
    let lo = mem.read(addr);
    let hi_addr = (addr & 0xFF00) | (addr.wrapping_add(1) & 0x00FF);
    assert(hi_addr == (page(addr) * 256 + add16(addr, 1) % 256) as u16) by (bit_vector)
        requires
            hi_addr == (addr & 0xFF00) | (addr.wrapping_add(1) & 0x00FF),
    ;
    let hi = mem.read(hi_addr);
    cpu.pc = make_word(lo, hi);
    5
}

fn jsr<M: Memory>(cpu: &mut Cpu, mem: &mut M) -> (cy: u8)
    requires
        M::ready(old(mem).model()),
        old(cpu).pc + 2 <= 0xFFFF,
    ensures
        (*final(cpu), final(mem).model(), cy) == handler_spec::<M>(
            Handler::Jsr,
            *old(cpu),
            old(mem).model(),
        ),
        M::ready(final(mem).model()),
{
    let ret = cpu.pc + 2;
    cpu.push(mem, high_byte(ret));
    cpu.push(mem, low_byte(ret));
    cpu.pc = read_u16(cpu, mem);
    6
}

fn rts<M: Memory>(cpu: &mut Cpu, mem: &mut M) -> (cy: u8)
    requires
        M::ready(old(mem).model()),
    ensures
        (*final(cpu), final(mem).model(), cy) == handler_spec::<M>(
            Handler::Rts,
            *old(cpu),
            old(mem).model(),
        ),
        M::ready(final(mem).model()),
{
    let lo = cpu.pull(mem);
    let hi = cpu.pull(mem);
    cpu.pc = make_word(lo, hi).wrapping_add(1);
    6
}

fn rti<M: Memory>(cpu: &mut Cpu, mem: &mut M) -> (cy: u8)
    requires
        M::ready(old(mem).model()),
    ensures
        (*final(cpu), final(mem).model(), cy) == handler_spec::<M>(
            Handler::Rti,
            *old(cpu),
            old(mem).model(),
        ),
        M::ready(final(mem).model()),
{
    let s = cpu.pull(mem);
    cpu.status = Status::from_byte(s);
    let lo = cpu.pull(mem);
    let hi = cpu.pull(mem);
    cpu.pc = make_word(lo, hi);
    6
}

fn brk<M: Memory>(cpu: &mut Cpu, mem: &mut M) -> (cy: u8)
    requires
        M::ready(old(mem).model()),
        old(cpu).pc + 2 <= 0xFFFF,
    ensures
        (*final(cpu), final(mem).model(), cy) == handler_spec::<M>(
            Handler::Brk,
            *old(cpu),
            old(mem).model(),
        ),
        M::ready(final(mem).model()),
{
    let ret = cpu.pc + 2;
    cpu.push(mem, high_byte(ret));
    cpu.push(mem, low_byte(ret));
    let flags = cpu.status.to_byte_with_break();
    cpu.push(mem, flags);
    cpu.status.set(INTERRUPT, true);
    let lo = mem.read(0xFFFE);
    let hi = mem.read(0xFFFF);
    cpu.pc = make_word(lo, hi);
    7
}

impl Handler {
    /// Run the handler on `cpu` and `mem`; returns the cycles taken.
    pub fn run<M: Memory>(self, cpu: &mut Cpu, mem: &mut M) -> (cy: u8)
        requires
            M::ready(old(mem).model()),
            handler_runs(self, old(cpu).pc),
        ensures
            (*final(cpu), final(mem).model(), cy) == handler_spec::<M>(
                self,
                *old(cpu),
                old(mem).model(),
            ),
            M::ready(final(mem).model()),
    {
        match self {
            Handler::Straight(op, mode) => run_straight(op, mode, cpu, mem),
            Handler::Branch(opcode) => {
                let take = branch_condition(opcode, cpu.status);
                do_branch(cpu, mem, take)
            },
            Handler::JmpAbs => {
                cpu.pc = read_u16(cpu, mem);
                3
            },
            Handler::JmpInd => jmp_ind(cpu, mem),
            Handler::Jsr => jsr(cpu, mem),
            Handler::Rts => rts(cpu, mem),
            Handler::Rti => rti(cpu, mem),
            Handler::Brk => brk(cpu, mem),
            Handler::Illegal => 0,
        }
    }
}

/// The handler of one opcode.
fn handler_of(opcode: u8) -> (r: Handler)
    ensures
        r == handler_for(opcode),
{
    match classify(opcode) {
        Some((op, mode)) => Handler::Straight(op, mode),
        None => if is_branch(opcode) {
            Handler::Branch(opcode)
        } else if opcode == 0x4C {
            Handler::JmpAbs
        } else if opcode == 0x6C {
            Handler::JmpInd
        } else if opcode == 0x20 {
            Handler::Jsr
        } else if opcode == 0x60 {
            Handler::Rts
        } else if opcode == 0x40 {
            Handler::Rti
        } else if opcode == 0x00 {
            Handler::Brk
        } else {
            Handler::Illegal
        },
    }
}

// ── Dispatch table ──────────────────────────────────────────────────

/// The handler of every opcode, indexed by opcode.
pub fn dispatch_table() -> (t: [Handler; 256])
    ensures
        forall|i: int| 0 <= i < 256 ==> #[trigger] t[i] == handler_for(i as u8),
{
    let mut t: [Handler; 256] = [Handler::Illegal; 256];
    let mut i: usize = 0;
    while i < 256
        invariant
            i <= 256,
            forall|k: int| 0 <= k < i ==> #[trigger] t[k] == handler_for(k as u8),
        decreases 256 - i,
    {
        t[i] = handler_of(i as u8);
        i = i + 1;
    }
    t
}

} // verus!
