//! The dispatch table agrees with the CPU core: on plain RAM, running an
//! opcode's handler has the effect of a CPU step.
use vstd::prelude::*;
use crate::cpu::{Cpu, FlatMemory};
use crate::dispatch::{
    handler_address, handler_penalty, penalty_mode, straight_handler, handler_spec, handler_for,
    handler_runs, Handler,
};
use crate::isa::{
    add16, add8, stack_addr, with_pc, rmw_op_spec, exec_straight, operand_address, step_spec,
    lemma_step_matches_tables, is_branch_opcode,
};
use crate::rom_compiler::{
    Op, AddrMode, decode, op_is_rmw, op_is_stack, op_is_store, op_is_load, mode_size,
    lemma_tables_match_decode, is_legal_opcode, straight_cycles, CYCLE_TABLE,
};

verus! {

/// On plain RAM, the CPU's operand-address sequence and the handler's
/// direct operand read find the same address and leave memory alone; the
/// handler's page-cross check agrees with the CPU's indexing penalty.
#[verifier::spinoff_prover]
proof fn lemma_flat_address(mode: AddrMode, fixup: bool, c: Cpu, m: Seq<u8>)
    requires
        m.len() == 0x10000,
        mode != AddrMode::Implied,
        mode != AddrMode::Immediate,
    ensures
        ({
            let (a, c2, m2, cy) = operand_address::<FlatMemory>(
                mode,
                fixup,
                with_pc(c, add16(c.pc, 1)),
                m,
            );
            let (ha, hm) = handler_address::<FlatMemory>(mode, c, m);
            let (p, pm) = handler_penalty::<FlatMemory>(mode, c, m);
            &&& a == ha
            &&& m2 == m
            &&& hm == m
            &&& pm == m
            &&& c2 == with_pc(c, add16(c.pc, mode_size(mode) as int))
            &&& penalty_mode(mode) && !fixup ==> cy == (if mode == AddrMode::IndirectY {
                3int
            } else {
                2int
            }) + p
        }),
{
    let c1 = with_pc(c, add16(c.pc, 1));
    match mode {
        AddrMode::ZeroPage => {},
        AddrMode::ZeroPageX => {},
        AddrMode::ZeroPageY => {},
        AddrMode::Absolute => {
            assert(add16(add16(c.pc, 1), 1) == add16(c.pc, 2));
        },
        AddrMode::AbsoluteX => {
            assert(add16(add16(c.pc, 1), 1) == add16(c.pc, 2));
        },
        AddrMode::AbsoluteY => {
            assert(add16(add16(c.pc, 1), 1) == add16(c.pc, 2));
        },
        AddrMode::IndirectX => {},
        AddrMode::IndirectY => {},
        _ => {},
    }
}

/// On plain RAM a straight-line handler has the effect of the CPU's own
/// execution of the instruction after its opcode fetch.
#[verifier::spinoff_prover]
#[verifier::rlimit(100)]
proof fn lemma_straight_matches(op: Op, mode: AddrMode, c: Cpu, m: Seq<u8>)
    requires
        m.len() == 0x10000,
        decode(m[c.pc as int]) == Some((op, mode)),
    ensures
        ({
            let (c1, m1, cy) = exec_straight::<FlatMemory>(op, mode, with_pc(c, add16(c.pc, 1)), m);
            let (d, dm, dcy) = straight_handler::<FlatMemory>(op, mode, c, m);
            &&& d == c1
            &&& dm == m1
        }),
{
    let c1 = with_pc(c, add16(c.pc, 1));
    lemma_tables_match_decode(m[c.pc as int]);
    if op_is_stack(op) {
        assert(mode == AddrMode::Implied);
    } else if mode == AddrMode::Implied {
    } else if mode == AddrMode::Immediate {
    } else if op_is_store(op) {
        lemma_flat_address(mode, true, c, m);
    } else if op_is_rmw(op) {
        lemma_flat_address(mode, true, c, m);
        let (a, c2, m2, cy) = operand_address::<FlatMemory>(mode, true, c1, m);
        let v = m[a as int];
        assert(m.update(a as int, v).update(a as int, rmw_op_spec(op, c2, v).0) =~= m.update(
            a as int,
            rmw_op_spec(op, c2, v).0,
        ));
    } else {
        lemma_flat_address(mode, false, c, m);
    }
}



/// On plain RAM, running the dispatch-table handler of the opcode at PC has
/// the effect of a CPU step: the same registers, memory and cycle count; the
/// handler leaves the cycle counter alone. A JSR must not push its return
/// address over its own operand's low byte (the CPU reads that byte before
/// the pushes, the handler after).
#[verifier::spinoff_prover]
#[verifier::rlimit(100)]
pub proof fn lemma_dispatch_matches_step(c: Cpu, m: Seq<u8>)
    requires
        m.len() == 0x10000,
        is_legal_opcode(m[c.pc as int]),
        c.cycles <= u64::MAX - 7,
        handler_runs(handler_for(m[c.pc as int]), c.pc),
        m[c.pc as int] == 0x20 ==> add16(c.pc, 1) != stack_addr(c.sp) && add16(c.pc, 1)
            != stack_addr(add8(c.sp, -1)),
    ensures
        ({
            let (c2, m2, n) = step_spec::<FlatMemory>(c, m);
            handler_spec::<FlatMemory>(handler_for(m[c.pc as int]), c, m) == (
                Cpu { cycles: c.cycles, ..c2 },
                m2,
                n,
            )
        }),
{
    let opcode = m[c.pc as int];
    lemma_step_matches_tables::<FlatMemory>(c, m);
    lemma_tables_match_decode(opcode);
    match decode(opcode) {
        Some((op, mode)) => {
            lemma_straight_matches(op, mode, c, m);
            if mode != AddrMode::Implied && mode != AddrMode::Immediate {
                lemma_flat_address(mode, false, c, m);
                lemma_flat_address(mode, true, c, m);
            }
        },
        None => {
            if is_branch_opcode(opcode) {
            } else {
                assert(add16(add16(c.pc, 1), 1) == add16(c.pc, 2));
            }
        },
    }
}

} // verus!
