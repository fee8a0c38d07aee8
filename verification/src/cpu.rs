//! Cycle-accurate 6502 CPU core.
//!
//! Every CPU cycle performs exactly one bus operation (a read or a write),
//! so external hardware advancing on bus accesses stays in lockstep with the
//! processor.
use vstd::prelude::*;
use crate::isa::{
    word, stack_addr, sbc_binary, sbc_decimal, bcd_sub, page, unfixed_addr, indexed, adc_spec, sbc_spec, compare_spec, asl_spec,
    lsr_spec, rol_spec, ror_spec, set_a, set_x, set_y, read_op_spec, rmw_op_spec, implied_op_spec,
    operand_address, fetch, push, pull, stack_op, exec_straight, branch_spec, jump_spec, jmp_abs_spec, jmp_ind_spec, jsr_spec, rts_spec, rti_spec, brk_spec, add8, step_spec,
    next_opcode,
};
use crate::rom_compiler::{Op, AddrMode, classify, is_branch, is_legal_opcode};

verus! {

// ---------------------------------------------------------------------------
// Status flags
// ---------------------------------------------------------------------------

pub const CARRY: u8 = 0x01;
pub const ZERO: u8 = 0x02;
pub const INTERRUPT: u8 = 0x04;
pub const DECIMAL: u8 = 0x08;
pub const BREAK: u8 = 0x10;
pub const UNUSED: u8 = 0x20;
pub const OVERFLOW: u8 = 0x40;
pub const NEGATIVE: u8 = 0x80;

/// One of the eight single-bit status flags.
pub open spec fn is_flag(f: u8) -> bool {
    f == CARRY || f == ZERO || f == INTERRUPT || f == DECIMAL || f == BREAK || f == UNUSED
        || f == OVERFLOW || f == NEGATIVE
}

/// The status byte `s` with the bits of `flag` set (`on`) or cleared.
pub open spec fn with_flag(s: u8, flag: u8, on: bool) -> u8 {
    if on {
        s | flag
    } else {
        s & !flag
    }
}

/// Whether any bit of `flag` is set in `s`.
pub open spec fn has_flag(s: u8, flag: u8) -> bool {
    s & flag != 0
}

/// The status byte after ZERO and NEGATIVE have been set from the result `v`.
pub open spec fn zn(s: u8, v: u8) -> u8 {
    with_flag(with_flag(s, ZERO, v == 0), NEGATIVE, v >= 0x80)
}

/// Processor status register.
#[derive(Clone, Copy, Debug)]
pub struct Status(pub u8);

impl Default for Status {
    fn default() -> (r: Self)
        ensures
            r.0 == 0,
    {
        Status(0)
    }
}

impl Status {
    /// Pack for a push: BREAK and UNUSED are always set.
    pub fn to_byte_with_break(self) -> (r: u8)
        ensures
            r == self.0 | 0x30,
    {
        let b = self.0;
        assert(b | 0x10u8 | 0x20u8 == b | 0x30u8) by (bit_vector);
        b | BREAK | UNUSED
    }

    /// Restore from a pulled byte: BREAK and UNUSED are dropped.
    pub fn from_byte(byte: u8) -> (r: Self)
        ensures
            r.0 == byte & 0xCF,
    {
        let r = Status(byte & !(BREAK | UNUSED));
        assert(byte & !(0x10u8 | 0x20u8) == byte & 0xCF) by (bit_vector);
        r
    }

    pub fn set(&mut self, flag: u8, on: bool)
        ensures
            final(self).0 == with_flag(old(self).0, flag, on),
    {
        if on {
            self.0 = self.0 | flag;
        } else {
            self.0 = self.0 & !flag;
        }
    }

    pub fn get(self, flag: u8) -> (r: bool)
        ensures
            r == has_flag(self.0, flag),
    {
        self.0 & flag != 0
    }

    /// Set ZERO and NEGATIVE from a result byte.
    pub fn set_zn(&mut self, val: u8)
        ensures
            final(self).0 == zn(old(self).0, val),
    {
        self.set(ZERO, val == 0);
        self.set(NEGATIVE, val & 0x80 != 0);
        assert(val & 0x80 != 0 <==> val >= 0x80) by (bit_vector);
    }
}

/// Setting a flag and reading it back gives what was set, and leaves every
/// other flag as it was.
pub proof fn lemma_flag_set_get(s: u8, f: u8, g: u8, on: bool)
    requires
        is_flag(f),
        is_flag(g),
    ensures
        has_flag(with_flag(s, f, on), f) == on,
        f != g ==> has_flag(with_flag(s, f, on), g) == has_flag(s, g),
{
    assert(has_flag(with_flag(s, f, on), f) == on) by (bit_vector)
        requires
            f == 1u8 || f == 2u8 || f == 4u8 || f == 8u8 || f == 16u8 || f == 32u8 || f == 64u8
                || f == 128u8,
    ;
    assert(f != g ==> has_flag(with_flag(s, f, on), g) == has_flag(s, g)) by (bit_vector)
        requires
            f == 1u8 || f == 2u8 || f == 4u8 || f == 8u8 || f == 16u8 || f == 32u8 || f == 64u8
                || f == 128u8,
            g == 1u8 || g == 2u8 || g == 4u8 || g == 8u8 || g == 16u8 || g == 32u8 || g == 64u8
                || g == 128u8,
    ;
}

/// A status byte pushed with BREAK set and pulled back again keeps every flag
/// but BREAK and UNUSED, which come back clear.
pub proof fn lemma_status_push_pull(s: u8)
    ensures
        (s | 0x30) & 0xCF == s & 0xCF,
        forall|f: u8| is_flag(f) && f != BREAK && f != UNUSED ==> has_flag(((s | 0x30) & 0xCF), f)
            == has_flag(s, f),
{
    assert((s | 0x30) & 0xCF == s & 0xCF) by (bit_vector);
    assert forall|f: u8| is_flag(f) && f != BREAK && f != UNUSED implies has_flag(
        ((s | 0x30) & 0xCF),
        f,
    ) == has_flag(s, f) by {
        assert(((s | 0x30) & 0xCF) & f != 0 <==> s & f != 0) by (bit_vector)
            requires
                f == 1u8 || f == 2u8 || f == 4u8 || f == 8u8 || f == 64u8 || f == 128u8,
        ;
    }
}


// ---------------------------------------------------------------------------
// Memory
// ---------------------------------------------------------------------------

/// A device on the CPU bus.
///
/// Its state is described by a model; a read returns a value determined by
/// the model and moves the model on (reads may have side effects, such as
/// bank switching or clearing a timer flag), and so does a write.
pub trait Memory: Sized {
    type Model;

    spec fn model(&self) -> Self::Model;

    /// States in which the device serves reads and writes.
    spec fn ready(m: Self::Model) -> bool;

    /// The value a read of `addr` returns in state `m`.
    spec fn read_value(m: Self::Model, addr: u16) -> u8;

    /// The state after a read of `addr`.
    spec fn after_read(m: Self::Model, addr: u16) -> Self::Model;

    /// The state after writing `val` to `addr`.
    spec fn after_write(m: Self::Model, addr: u16, val: u8) -> Self::Model;

    fn read(&mut self, addr: u16) -> (r: u8)
        requires
            Self::ready(old(self).model()),
        ensures
            r == Self::read_value(old(self).model(), addr),
            final(self).model() == Self::after_read(old(self).model(), addr),
            Self::ready(final(self).model()),
    ;

    fn write(&mut self, addr: u16, val: u8)
        requires
            Self::ready(old(self).model()),
        ensures
            final(self).model() == Self::after_write(old(self).model(), addr, val),
            Self::ready(final(self).model()),
    ;

    fn tick(&mut self) {
    }

    fn tick_count(&self) -> (r: u32) {
        0
    }
}

// ---------------------------------------------------------------------------
// FlatMemory: 64K of plain RAM
// ---------------------------------------------------------------------------

pub struct FlatMemory {
    pub ram: Vec<u8>,
}

impl Default for FlatMemory {
    fn default() -> (r: Self)
        ensures
            r.ram@ == Seq::new(0x10000, |i: int| 0u8),
    {
        let r = FlatMemory { ram: vec![0u8; 0x10000] };
        assert(r.ram@ =~= Seq::new(0x10000, |i: int| 0u8));
        r
    }
}

impl FlatMemory {
    pub fn new() -> (r: Self)
        ensures
            r.ram@ == Seq::new(0x10000, |i: int| 0u8),
    {
        Self::default()
    }

    /// Load a binary blob at the given base address.
    pub fn load(&mut self, base: u16, data: &[u8])
        requires
            old(self).ram@.len() == 0x10000,
            base + data@.len() <= 0x10000,
        ensures
            final(self).ram@.len() == 0x10000,
            forall|i: int|
                0 <= i < 0x10000 ==> #[trigger] final(self).ram@[i] == if base <= i < base
                    + data@.len() {
                    data@[i - base]
                } else {
                    old(self).ram@[i]
                },
    {
        let start = base as usize;
        let mut k: usize = 0;
        while k < data.len()
            invariant
                start == base,
                start + data@.len() <= 0x10000,
                k <= data@.len(),
                self.ram@.len() == 0x10000,
                forall|i: int|
                    0 <= i < 0x10000 ==> #[trigger] self.ram@[i] == if start <= i < start + k {
                        data@[i - start]
                    } else {
                        old(self).ram@[i]
                    },
            decreases data@.len() - k,
        {
            self.ram.set(start + k, data[k]);
            k = k + 1;
        }
    }
}

impl Memory for FlatMemory {
    type Model = Seq<u8>;

    open spec fn model(&self) -> Seq<u8> {
        self.ram@
    }

    open spec fn ready(m: Seq<u8>) -> bool {
        m.len() == 0x10000
    }

    open spec fn read_value(m: Seq<u8>, addr: u16) -> u8 {
        m[addr as int]
    }

    open spec fn after_read(m: Seq<u8>, addr: u16) -> Seq<u8> {
        m
    }

    open spec fn after_write(m: Seq<u8>, addr: u16, val: u8) -> Seq<u8> {
        m.update(addr as int, val)
    }

    fn read(&mut self, addr: u16) -> (r: u8) {
        self.ram[addr as usize]
    }

    fn write(&mut self, addr: u16, val: u8) {
        self.ram.set(addr as usize, val);
    }
}

/// On plain RAM a read returns what the last write to that address wrote,
/// and leaves the other addresses alone.
pub proof fn lemma_flat_read_after_write(m: Seq<u8>, addr: u16, other: u16, val: u8)
    requires
        FlatMemory::ready(m),
    ensures
        FlatMemory::read_value(FlatMemory::after_write(m, addr, val), addr) == val,
        other != addr ==> FlatMemory::read_value(FlatMemory::after_write(m, addr, val), other)
            == FlatMemory::read_value(m, other),
        FlatMemory::after_read(m, addr) == m,
{
}

// ---------------------------------------------------------------------------
// Byte/word helpers
// ---------------------------------------------------------------------------

fn wsub(x: u8, y: u8) -> (r: u8)
    ensures
        r == add8(x, -y),
{
    x.wrapping_sub(y)
}

/// Binary `a - val - borrow` modulo 256, and whether it did not borrow.
fn subtract_with_borrow(a: u8, val: u8, borrow: u8) -> (r: (u8, bool))
    requires
        borrow <= 1,
    ensures
        r.0 == ((a - val - borrow) % 256) as u8,
        r.1 == (a - val - borrow >= 0),
{
    let diff: u16 = (a as u16) + 256 - (val as u16) - (borrow as u16);
    assert(diff & 0xFFu16 == diff % 256 && diff & 0xFFu16 < 256) by (bit_vector);
    ((diff & 0xFF) as u8, diff >= 256)
}

/// Nibble-wise BCD subtraction of a decimal-mode SBC.
fn bcd_subtract(a: u8, val: u8, borrow: u8) -> (r: u8)
    requires
        borrow <= 1,
    ensures
        r == bcd_sub(a, val, borrow as int),
{
    let lo0: u8 = wsub(wsub(a & 0x0F, val & 0x0F), borrow);
    let lo: u8 = if lo0 >= 128 { wsub(lo0, 6) } else { lo0 };
    let lo_borrow: u8 = if lo0 >= 128 { 1 } else { 0 };
    let hi0: u8 = wsub(wsub(a >> 4, val >> 4), lo_borrow);
    let hi: u8 = if hi0 >= 128 { wsub(hi0, 6) } else { hi0 };
    ((hi & 0x0F) << 4) | (lo & 0x0F)
}

pub(crate) fn make_word(lo: u8, hi: u8) -> (r: u16)
    ensures
        r == word(lo, hi),
{
    assert(((hi as u16) << 8u16) | (lo as u16) == hi * 256 + lo) by (bit_vector);
    ((hi as u16) << 8) | (lo as u16)
}

pub(crate) fn high_byte(w: u16) -> (r: u8)
    ensures
        r == w / 256,
{
    assert(w >> 8u16 == w / 256 && w >> 8u16 <= 255) by (bit_vector);
    (w >> 8) as u8
}

pub(crate) fn low_byte(w: u16) -> (r: u8)
    ensures
        r == w % 256,
{
    assert(w & 0xFFu16 == w % 256) by (bit_vector);
    (w & 0xFF) as u8
}

pub(crate) fn stack_address(sp: u8) -> (r: u16)
    ensures
        r == stack_addr(sp),
{
    assert(0x0100u16 | (sp as u16) == 0x100 + sp) by (bit_vector);
    0x0100 | sp as u16
}

/// Whether two addresses lie in different 256-byte pages.
pub(crate) fn page_crossed(a: u16, b: u16) -> (r: bool)
    ensures
        r == (page(a) != page(b)),
{
    assert((a & 0xFF00u16) == (a / 256) * 256) by (bit_vector);
    assert((b & 0xFF00u16) == (b / 256) * 256) by (bit_vector);
    (a & 0xFF00) != (b & 0xFF00)
}

fn unfixed(base: u16, eff: u16) -> (r: u16)
    ensures
        r == unfixed_addr(base, eff),
{
    assert((base & 0xFF00u16) | (eff & 0x00FFu16) == (base / 256) * 256 + eff % 256)
        by (bit_vector);
    (base & 0xFF00) | (eff & 0x00FF)
}

/// Indexed address `base + idx`, with the read at the unfixed address.
fn indexed_address<M: Memory>(mem: &mut M, base: u16, idx: u8, fixup: bool, cy: u8) -> (r: (
    u16,
    u8,
))
    requires
        M::ready(old(mem).model()),
        cy <= 3,
    ensures
        ({
            let (a, c, m, n) = indexed::<M>(base, idx, fixup, Cpu::spec_default(), old(mem).model(), cy);
            r == (a, n) && final(mem).model() == m
        }),
        M::ready(final(mem).model()),
{
    let eff = base.wrapping_add(idx as u16);
    if fixup || page_crossed(base, eff) {
        mem.read(unfixed(base, eff));
        (eff, cy + 1)
    } else {
        (eff, cy)
    }
}

// ---------------------------------------------------------------------------
// CPU
// ---------------------------------------------------------------------------

#[derive(Debug)]
pub struct Cpu {
    pub pc: u16,
    pub sp: u8,
    pub a: u8,
    pub x: u8,
    pub y: u8,
    pub status: Status,
    pub cycles: u64,
}

impl Clone for Cpu {
    fn clone(&self) -> (r: Self)
        ensures
            r == *self,
    {
        Cpu {
            pc: self.pc,
            sp: self.sp,
            a: self.a,
            x: self.x,
            y: self.y,
            status: self.status,
            cycles: self.cycles,
        }
    }
}

impl Default for Cpu {
    fn default() -> (r: Self)
        ensures
            r == Cpu::spec_default(),
    {
        Cpu { pc: 0, sp: 0xFD, a: 0, x: 0, y: 0, status: Status(0), cycles: 0 }
    }
}

impl Cpu {
    /// Power-on registers: all zero but SP = $FD.
    pub open spec fn spec_default() -> Cpu {
        Cpu { pc: 0, sp: 0xFD, a: 0, x: 0, y: 0, status: Status(0), cycles: 0 }
    }

    pub fn new() -> (r: Self)
        ensures
            r == Cpu::spec_default(),
    {
        Self::default()
    }

    /// Reset the CPU, reading the reset vector from $FFFC/$FFFD.
    pub fn reset<M: Memory>(&mut self, memory: &mut M)
        requires
            M::ready(old(memory).model()),
        ensures
            ({
                let m0 = old(memory).model();
                let lo = M::read_value(m0, 0xFFFC);
                let m1 = M::after_read(m0, 0xFFFC);
                let hi = M::read_value(m1, 0xFFFD);
                &&& final(memory).model() == M::after_read(m1, 0xFFFD)
                &&& *final(self) == Cpu {
                    pc: word(lo, hi),
                    sp: 0xFD,
                    a: 0,
                    x: 0,
                    y: 0,
                    status: Status(0),
                    cycles: old(self).cycles,
                }
            }),
            M::ready(final(memory).model()),
    {
        let lo = memory.read(0xFFFC);
        let hi = memory.read(0xFFFD);
        self.pc = make_word(lo, hi);
        self.sp = 0xFD;
        self.status = Status(0);
        self.a = 0;
        self.x = 0;
        self.y = 0;
    }

    // -- bus helpers --

    pub(crate) fn fetch<M: Memory>(&mut self, mem: &mut M) -> (r: u8)
        requires
            M::ready(old(mem).model()),
        ensures
            (r, *final(self), final(mem).model()) == fetch::<M>(*old(self), old(mem).model()),
            M::ready(final(mem).model()),
    {
        let v = mem.read(self.pc);
        self.pc = self.pc.wrapping_add(1);
        v
    }

    pub(crate) fn push<M: Memory>(&mut self, mem: &mut M, val: u8)
        requires
            M::ready(old(mem).model()),
        ensures
            (*final(self), final(mem).model()) == push::<M>(*old(self), old(mem).model(), val),
            M::ready(final(mem).model()),
    {
        mem.write(stack_address(self.sp), val);
        self.sp = self.sp.wrapping_sub(1);
    }

    pub(crate) fn pull<M: Memory>(&mut self, mem: &mut M) -> (r: u8)
        requires
            M::ready(old(mem).model()),
        ensures
            (r, *final(self), final(mem).model()) == pull::<M>(*old(self), old(mem).model()),
            M::ready(final(mem).model()),
    {
        self.sp = self.sp.wrapping_add(1);
        mem.read(stack_address(self.sp))
    }

    // -- ALU helpers --

    fn adc(&mut self, val: u8)
        ensures
            *final(self) == adc_spec(*old(self), val),
    {
        let carry: u8 = if self.status.get(CARRY) { 1 } else { 0 };
        let a = self.a;
        if self.status.get(DECIMAL) {
            assert(a & 0x0Fu8 <= 15 && val & 0x0Fu8 <= 15 && a >> 4u8 <= 15 && val >> 4u8 <= 15)
                by (bit_vector);
            let mut lo: u8 = (a & 0x0F) + (val & 0x0F) + carry;
            if lo > 9 {
                lo = lo + 6;
            }
            let mut hi: u8 = (a >> 4) + (val >> 4) + if lo > 0x0F { 1 } else { 0 };
            let bin_sum: u16 = (a as u16) + (val as u16) + (carry as u16);
            self.status.set(ZERO, bin_sum & 0xFF == 0);
            self.status.set(NEGATIVE, (hi & 0x08) != 0);
            self.status.set(OVERFLOW, (!(a ^ val) & (a ^ ((hi << 4) | (lo & 0x0F))) & 0x80) != 0);
            if hi > 9 {
                hi = hi + 6;
            }
            self.status.set(CARRY, hi > 0x0F);
            self.a = ((hi & 0x0F) << 4) | (lo & 0x0F);
            assert(bin_sum & 0xFFu16 == bin_sum % 256) by (bit_vector);
        } else {
            let sum: u16 = (a as u16) + (val as u16) + (carry as u16);
            assert(sum & 0xFFu16 == sum % 256) by (bit_vector);
            let r = (sum & 0xFF) as u8;
            self.status.set(CARRY, sum > 0xFF);
            self.status.set(OVERFLOW, (!(a ^ val) & (a ^ r) & 0x80) != 0);
            assert((!(a ^ val) & (a ^ r) & 0x80u8) != 0 <==> ((a >= 128) == (val >= 128) && (r
                >= 128) != (a >= 128))) by (bit_vector);
            self.a = r;
            self.status.set_zn(r);
        }
    }

    fn sbc_binary(&mut self, val: u8)
        ensures
            *final(self) == sbc_binary(*old(self), val),
    {
        let borrow: u8 = if self.status.get(CARRY) { 0 } else { 1 };
        let a = self.a;
        let (d, no_borrow) = subtract_with_borrow(a, val, borrow);
        self.status.set(CARRY, no_borrow);
        self.status.set(OVERFLOW, ((a ^ val) & (a ^ d) & 0x80) != 0);
        assert(((a ^ val) & (a ^ d) & 0x80u8) != 0 <==> ((a >= 128) != (val >= 128) && (d >= 128)
            != (a >= 128))) by (bit_vector);
        self.a = d;
        self.status.set_zn(d);
    }

    fn sbc_decimal(&mut self, val: u8)
        ensures
            *final(self) == sbc_decimal(*old(self), val),
    {
        let borrow: u8 = if self.status.get(CARRY) { 0 } else { 1 };
        let a = self.a;
        let (d, no_borrow) = subtract_with_borrow(a, val, borrow);
        self.status.set(CARRY, no_borrow);
        self.status.set(ZERO, d == 0);
        self.status.set(NEGATIVE, d >= 128);
        self.status.set(OVERFLOW, ((a ^ val) & (a ^ d) & 0x80) != 0);
        assert(((a ^ val) & (a ^ d) & 0x80u8) != 0 <==> ((a >= 128) != (val >= 128) && (d >= 128)
            != (a >= 128))) by (bit_vector);
        self.a = bcd_subtract(a, val, borrow);
    }

    fn sbc(&mut self, val: u8)
        ensures
            *final(self) == sbc_spec(*old(self), val),
    {
        if self.status.get(DECIMAL) {
            self.sbc_decimal(val);
        } else {
            self.sbc_binary(val);
        }
    }

    fn compare(&mut self, reg: u8, val: u8)
        ensures
            *final(self) == compare_spec(*old(self), reg, val),
    {
        let result = reg.wrapping_sub(val);
        self.status.set(CARRY, reg >= val);
        self.status.set_zn(result);
    }

    fn asl_val(&mut self, val: u8) -> (r: u8)
        ensures
            (r, *final(self)) == asl_spec(*old(self), val),
    {
        self.status.set(CARRY, val & 0x80 != 0);
        let r = val << 1;
        self.status.set_zn(r);
        r
    }

    fn lsr_val(&mut self, val: u8) -> (r: u8)
        ensures
            (r, *final(self)) == lsr_spec(*old(self), val),
    {
        self.status.set(CARRY, val & 0x01 != 0);
        let r = val >> 1;
        self.status.set_zn(r);
        r
    }

    fn rol_val(&mut self, val: u8) -> (r: u8)
        ensures
            (r, *final(self)) == rol_spec(*old(self), val),
    {
        let old_carry: u8 = if self.status.get(CARRY) { 1 } else { 0 };
        self.status.set(CARRY, val & 0x80 != 0);
        let r = (val << 1) | old_carry;
        self.status.set_zn(r);
        r
    }

    fn ror_val(&mut self, val: u8) -> (r: u8)
        ensures
            (r, *final(self)) == ror_spec(*old(self), val),
    {
        let old_carry: u8 = if self.status.get(CARRY) { 1 } else { 0 };
        self.status.set(CARRY, val & 0x01 != 0);
        let r = (val >> 1) | (old_carry << 7);
        self.status.set_zn(r);
        r
    }

    fn load_a(&mut self, val: u8)
        ensures
            *final(self) == set_a(*old(self), val),
    {
        self.a = val;
        self.status.set_zn(val);
    }

    fn load_x(&mut self, val: u8)
        ensures
            *final(self) == set_x(*old(self), val),
    {
        self.x = val;
        self.status.set_zn(val);
    }

    fn load_y(&mut self, val: u8)
        ensures
            *final(self) == set_y(*old(self), val),
    {
        self.y = val;
        self.status.set_zn(val);
    }

    /// Apply an operation that consumes the operand value `val`.
    pub(crate) fn read_op(&mut self, op: Op, val: u8)
        ensures
            *final(self) == read_op_spec(op, *old(self), val),
    {
        match op {
            Op::Lda => self.load_a(val),
            Op::Ldx => self.load_x(val),
            Op::Ldy => self.load_y(val),
            Op::Adc => self.adc(val),
            Op::Sbc => self.sbc(val),
            Op::And => {
                let v = self.a & val;
                self.load_a(v);
            },
            Op::Ora => {
                let v = self.a | val;
                self.load_a(v);
            },
            Op::Eor => {
                let v = self.a ^ val;
                self.load_a(v);
            },
            Op::Cmp => {
                let r = self.a;
                self.compare(r, val);
            },
            Op::Cpx => {
                let r = self.x;
                self.compare(r, val);
            },
            Op::Cpy => {
                let r = self.y;
                self.compare(r, val);
            },
            Op::Bit => {
                let a = self.a;
                self.status.set(ZERO, (a & val) == 0);
                self.status.set(OVERFLOW, val & 0x40 != 0);
                self.status.set(NEGATIVE, val & 0x80 != 0);
            },
            _ => {},
        }
    }

    /// Apply a read-modify-write operation to `val`; returns the new value.
    pub(crate) fn rmw_op(&mut self, op: Op, val: u8) -> (r: u8)
        ensures
            (r, *final(self)) == rmw_op_spec(op, *old(self), val),
    {
        match op {
            Op::AslM => self.asl_val(val),
            Op::LsrM => self.lsr_val(val),
            Op::RolM => self.rol_val(val),
            Op::RorM => self.ror_val(val),
            Op::IncM => {
                let r = val.wrapping_add(1);
                self.status.set_zn(r);
                r
            },
            Op::DecM => {
                let r = val.wrapping_sub(1);
                self.status.set_zn(r);
                r
            },
            _ => val,
        }
    }

    /// Apply an implied-mode register operation.
    pub(crate) fn implied_op(&mut self, op: Op)
        ensures
            *final(self) == implied_op_spec(op, *old(self)),
    {
        match op {
            Op::AslA => {
                let a = self.a;
                self.a = self.asl_val(a);
            },
            Op::LsrA => {
                let a = self.a;
                self.a = self.lsr_val(a);
            },
            Op::RolA => {
                let a = self.a;
                self.a = self.rol_val(a);
            },
            Op::RorA => {
                let a = self.a;
                self.a = self.ror_val(a);
            },
            Op::Tax => {
                let v = self.a;
                self.load_x(v);
            },
            Op::Txa => {
                let v = self.x;
                self.load_a(v);
            },
            Op::Tay => {
                let v = self.a;
                self.load_y(v);
            },
            Op::Tya => {
                let v = self.y;
                self.load_a(v);
            },
            Op::Txs => {
                self.sp = self.x;
            },
            Op::Tsx => {
                let v = self.sp;
                self.load_x(v);
            },
            Op::Inx => {
                let v = self.x.wrapping_add(1);
                self.load_x(v);
            },
            Op::Iny => {
                let v = self.y.wrapping_add(1);
                self.load_y(v);
            },
            Op::Dex => {
                let v = self.x.wrapping_sub(1);
                self.load_x(v);
            },
            Op::Dey => {
                let v = self.y.wrapping_sub(1);
                self.load_y(v);
            },
            Op::Clc => self.status.set(CARRY, false),
            Op::Sec => self.status.set(CARRY, true),
            Op::Cli => self.status.set(INTERRUPT, false),
            Op::Sei => self.status.set(INTERRUPT, true),
            Op::Clv => self.status.set(OVERFLOW, false),
            Op::Cld => self.status.set(DECIMAL, false),
            Op::Sed => self.status.set(DECIMAL, true),
            _ => {},
        }
    }

    fn address_zero_page<M: Memory>(&mut self, mem: &mut M, mode: AddrMode, fixup: bool) -> (r: (
        u16,
        u8,
    ))
        requires
            M::ready(old(mem).model()),
            mode == AddrMode::ZeroPage || mode == AddrMode::ZeroPageX || mode == AddrMode::ZeroPageY,
        ensures
            ({
                let (a, c, m, n) = operand_address::<M>(mode, fixup, *old(self), old(mem).model());
                r == (a, n) && *final(self) == c && final(mem).model() == m
            }),
            M::ready(final(mem).model()),
    {
        let b = self.fetch(mem);
        match mode {
            AddrMode::ZeroPage => (b as u16, 1),
            AddrMode::ZeroPageX => {
                mem.read(b as u16);
                (b.wrapping_add(self.x) as u16, 2)
            },
            _ => {
                mem.read(b as u16);
                (b.wrapping_add(self.y) as u16, 2)
            },
        }
    }

    fn address_absolute<M: Memory>(&mut self, mem: &mut M, mode: AddrMode, fixup: bool) -> (r: (
        u16,
        u8,
    ))
        requires
            M::ready(old(mem).model()),
            mode == AddrMode::Absolute || mode == AddrMode::AbsoluteX || mode == AddrMode::AbsoluteY,
        ensures
            ({
                let (a, c, m, n) = operand_address::<M>(mode, fixup, *old(self), old(mem).model());
                r == (a, n) && *final(self) == c && final(mem).model() == m
            }),
            M::ready(final(mem).model()),
    {
        let lo = self.fetch(mem);
        let hi = self.fetch(mem);
        let base = make_word(lo, hi);
        match mode {
            AddrMode::Absolute => (base, 2),
            AddrMode::AbsoluteX => indexed_address(mem, base, self.x, fixup, 2),
            _ => indexed_address(mem, base, self.y, fixup, 2),
        }
    }

    fn address_indirect_x<M: Memory>(&mut self, mem: &mut M) -> (r: (u16, u8))
        requires
            M::ready(old(mem).model()),
        ensures
            ({
                let (a, c, m, n) = operand_address::<M>(
                    AddrMode::IndirectX,
                    true,
                    *old(self),
                    old(mem).model(),
                );
                r == (a, n) && *final(self) == c && final(mem).model() == m
            }),
            M::ready(final(mem).model()),
    {
        let b = self.fetch(mem);
        mem.read(b as u16);
        let p = b.wrapping_add(self.x);
        let lo = mem.read(p as u16);
        let hi = mem.read(p.wrapping_add(1) as u16);
        (make_word(lo, hi), 4)
    }

    #[verifier::rlimit(100)]
    fn address_indirect_y<M: Memory>(&mut self, mem: &mut M, fixup: bool) -> (r: (u16, u8))
        requires
            M::ready(old(mem).model()),
        ensures
            ({
                let (a, c, m, n) = operand_address::<M>(
                    AddrMode::IndirectY,
                    fixup,
                    *old(self),
                    old(mem).model(),
                );
                r == (a, n) && *final(self) == c && final(mem).model() == m
            }),
            M::ready(final(mem).model()),
    {
        let z = self.fetch(mem);
        let lo = mem.read(z as u16);
        let hi = mem.read(z.wrapping_add(1) as u16);
        indexed_address(mem, make_word(lo, hi), self.y, fixup, 3)
    }

    /// Fetch the operand address of `mode`; returns it with the bus cycles spent.
    fn operand_address<M: Memory>(&mut self, mem: &mut M, mode: AddrMode, fixup: bool) -> (r: (
        u16,
        u8,
    ))
        requires
            M::ready(old(mem).model()),
        ensures
            ({
                let (a, c, m, n) = operand_address::<M>(mode, fixup, *old(self), old(mem).model());
                r == (a, n) && *final(self) == c && final(mem).model() == m
            }),
            M::ready(final(mem).model()),
    {
        match mode {
            AddrMode::ZeroPage | AddrMode::ZeroPageX | AddrMode::ZeroPageY => {
                self.address_zero_page(mem, mode, fixup)
            },
            AddrMode::Absolute | AddrMode::AbsoluteX | AddrMode::AbsoluteY => {
                self.address_absolute(mem, mode, fixup)
            },
            AddrMode::IndirectX => self.address_indirect_x(mem),
            AddrMode::IndirectY => self.address_indirect_y(mem, fixup),
            _ => (0, 0),
        }
    }

    /// PHA, PHP, PLA, PLP after the opcode fetch.
    fn stack_op<M: Memory>(&mut self, mem: &mut M, op: Op) -> (cy: u8)
        requires
            M::ready(old(mem).model()),
        ensures
            (*final(self), final(mem).model(), cy) == stack_op::<M>(op, *old(self), old(mem).model()),
            M::ready(final(mem).model()),
    {
        mem.read(self.pc);
        match op {
            Op::Pha => {
                let a = self.a;
                self.push(mem, a);
                2
            },
            Op::Php => {
                let flags = self.status.to_byte_with_break();
                self.push(mem, flags);
                2
            },
            Op::Pla => {
                mem.read(stack_address(self.sp));
                let v = self.pull(mem);
                self.load_a(v);
                3
            },
            _ => {
                mem.read(stack_address(self.sp));
                let flags = self.pull(mem);
                self.status = Status::from_byte(flags);
                3
            },
        }
    }

    /// A straight-line instruction after the opcode fetch.
    fn exec_straight<M: Memory>(&mut self, mem: &mut M, op: Op, mode: AddrMode) -> (cy: u8)
        requires
            M::ready(old(mem).model()),
        ensures
            (*final(self), final(mem).model(), cy) == exec_straight::<M>(
                op,
                mode,
                *old(self),
                old(mem).model(),
            ),
            M::ready(final(mem).model()),
    {
        match op {
            Op::Pha | Op::Php | Op::Pla | Op::Plp => {
                return self.stack_op(mem, op);
            },
            _ => {},
        }
        match mode {
            AddrMode::Implied => {
                mem.read(self.pc);
                self.implied_op(op);
                return 1;
            },
            AddrMode::Immediate => {
                let v = self.fetch(mem);
                self.read_op(op, v);
                return 1;
            },
            _ => {},
        }
        match op {
            Op::Sta | Op::Stx | Op::Sty => {
                let v = match op {
                    Op::Stx => self.x,
                    Op::Sty => self.y,
                    _ => self.a,
                };
                let (addr, cy) = self.operand_address(mem, mode, true);
                mem.write(addr, v);
                cy + 1
            },
            Op::AslM | Op::LsrM | Op::RolM | Op::RorM | Op::IncM | Op::DecM => {
                let (addr, cy) = self.operand_address(mem, mode, true);
                let v = mem.read(addr);
                mem.write(addr, v);
                let nv = self.rmw_op(op, v);
                mem.write(addr, nv);
                cy + 3
            },
            _ => {
                let (addr, cy) = self.operand_address(mem, mode, false);
                let v = mem.read(addr);
                self.read_op(op, v);
                cy + 1
            },
        }
    }

    /// A conditional branch after the opcode fetch.
    fn branch<M: Memory>(&mut self, mem: &mut M, opcode: u8) -> (cy: u8)
        requires
            M::ready(old(mem).model()),
        ensures
            (*final(self), final(mem).model(), cy) == branch_spec::<M>(
                opcode,
                *old(self),
                old(mem).model(),
            ),
            M::ready(final(mem).model()),
    {
        let s = self.status;
        let off = self.fetch(mem);
        let taken = match opcode {
            0x90 => !s.get(CARRY),
            0xB0 => s.get(CARRY),
            0xF0 => s.get(ZERO),
            0x30 => s.get(NEGATIVE),
            0xD0 => !s.get(ZERO),
            0x10 => !s.get(NEGATIVE),
            0x50 => !s.get(OVERFLOW),
            _ => s.get(OVERFLOW),
        };
        if taken {
            mem.read(self.pc);
            let old_pc = self.pc;
            let new_pc = if off < 128 {
                old_pc.wrapping_add(off as u16)
            } else {
                old_pc.wrapping_sub(256 - off as u16)
            };
            self.pc = new_pc;
            if page_crossed(old_pc, new_pc) {
                mem.read(unfixed(old_pc, new_pc));
                3
            } else {
                2
            }
        } else {
            1
        }
    }

    fn jmp_abs<M: Memory>(&mut self, mem: &mut M) -> (cy: u8)
        requires
            M::ready(old(mem).model()),
        ensures
            (*final(self), final(mem).model(), cy) == jmp_abs_spec::<M>(*old(self), old(mem).model()),
            M::ready(final(mem).model()),
    {
        let lo = self.fetch(mem);
        let hi = mem.read(self.pc);
        self.pc = make_word(lo, hi);
        2
    }

    fn jmp_ind<M: Memory>(&mut self, mem: &mut M) -> (cy: u8)
        requires
            M::ready(old(mem).model()),
        ensures
            (*final(self), final(mem).model(), cy) == jmp_ind_spec::<M>(*old(self), old(mem).model()),
            M::ready(final(mem).model()),
    {
        let lo = self.fetch(mem);
        let hi = self.fetch(mem);
        let ptr = make_word(lo, hi);
        let target_lo = mem.read(ptr);
        let target_hi = mem.read(unfixed(ptr, ptr.wrapping_add(1)));
        self.pc = make_word(target_lo, target_hi);
        4
    }

    fn jsr<M: Memory>(&mut self, mem: &mut M) -> (cy: u8)
        requires
            M::ready(old(mem).model()),
        ensures
            (*final(self), final(mem).model(), cy) == jsr_spec::<M>(*old(self), old(mem).model()),
            M::ready(final(mem).model()),
    {
        let lo = self.fetch(mem);
        mem.read(stack_address(self.sp));
        let ret = self.pc;
        self.push(mem, high_byte(ret));
        self.push(mem, low_byte(ret));
        let hi = mem.read(self.pc);
        self.pc = make_word(lo, hi);
        5
    }

    fn rts<M: Memory>(&mut self, mem: &mut M) -> (cy: u8)
        requires
            M::ready(old(mem).model()),
        ensures
            (*final(self), final(mem).model(), cy) == rts_spec::<M>(*old(self), old(mem).model()),
            M::ready(final(mem).model()),
    {
        mem.read(self.pc);
        mem.read(stack_address(self.sp));
        let ret_lo = self.pull(mem);
        let ret_hi = self.pull(mem);
        let ret_addr = make_word(ret_lo, ret_hi);
        mem.read(ret_addr);
        self.pc = ret_addr.wrapping_add(1);
        5
    }

    fn rti<M: Memory>(&mut self, mem: &mut M) -> (cy: u8)
        requires
            M::ready(old(mem).model()),
        ensures
            (*final(self), final(mem).model(), cy) == rti_spec::<M>(*old(self), old(mem).model()),
            M::ready(final(mem).model()),
    {
        mem.read(self.pc);
        mem.read(stack_address(self.sp));
        let flags = self.pull(mem);
        self.status = Status::from_byte(flags);
        let pc_lo = self.pull(mem);
        let pc_hi = self.pull(mem);
        self.pc = make_word(pc_lo, pc_hi);
        5
    }

    fn brk<M: Memory>(&mut self, mem: &mut M) -> (cy: u8)
        requires
            M::ready(old(mem).model()),
        ensures
            (*final(self), final(mem).model(), cy) == brk_spec::<M>(*old(self), old(mem).model()),
            M::ready(final(mem).model()),
    {
        let flags = self.status.to_byte_with_break();
        mem.read(self.pc);
        self.pc = self.pc.wrapping_add(1);
        let pc = self.pc;
        self.push(mem, high_byte(pc));
        self.push(mem, low_byte(pc));
        self.push(mem, flags);
        self.status.set(INTERRUPT, true);
        let vec_lo = mem.read(0xFFFE);
        let vec_hi = mem.read(0xFFFF);
        self.pc = make_word(vec_lo, vec_hi);
        6
    }

    /// JMP, JSR, RTS, RTI and BRK after the opcode fetch.
    fn jump<M: Memory>(&mut self, mem: &mut M, opcode: u8) -> (cy: u8)
        requires
            M::ready(old(mem).model()),
        ensures
            (*final(self), final(mem).model(), cy) == jump_spec::<M>(
                opcode,
                *old(self),
                old(mem).model(),
            ),
            M::ready(final(mem).model()),
    {
        if opcode == 0x4C {
            self.jmp_abs(mem)
        } else if opcode == 0x6C {
            self.jmp_ind(mem)
        } else if opcode == 0x20 {
            self.jsr(mem)
        } else if opcode == 0x60 {
            self.rts(mem)
        } else if opcode == 0x40 {
            self.rti(mem)
        } else {
            self.brk(mem)
        }
    }

    /// Fetch and execute one instruction when its opcode is one the CPU
    /// implements; otherwise stop right after the fetch and return `None`.
    pub fn try_step<M: Memory>(&mut self, memory: &mut M) -> (r: Option<u8>)
        requires
            M::ready(old(memory).model()),
            old(self).cycles <= u64::MAX - 7,
        ensures
            is_legal_opcode(next_opcode::<M>(*old(self), old(memory).model())) ==> ({
                let (c, m, n) = step_spec::<M>(*old(self), old(memory).model());
                r == Some(n) && *final(self) == c && final(memory).model() == m
            }),
            !is_legal_opcode(next_opcode::<M>(*old(self), old(memory).model())) ==> ({
                let (opcode, c, m) = fetch::<M>(*old(self), old(memory).model());
                r is None && *final(self) == c && final(memory).model() == m
            }),
            M::ready(final(memory).model()),
    {
        let opcode = self.fetch(memory);
        let cy = match classify(opcode) {
            Some((op, mode)) => self.exec_straight(memory, op, mode),
            None => {
                if is_branch(opcode) {
                    self.branch(memory, opcode)
                } else if opcode == 0x4C || opcode == 0x6C || opcode == 0x20 || opcode == 0x60
                    || opcode == 0x40 || opcode == 0x00 {
                    self.jump(memory, opcode)
                } else {
                    return None;
                }
            },
        };
        let total = cy + 1;
        self.cycles = self.cycles + total as u64;
        Some(total)
    }

    /// Execute a single instruction with cycle-accurate bus accesses.
    /// Returns the number of cycles consumed.
    pub fn step<M: Memory>(&mut self, memory: &mut M) -> (cycles: u8)
        requires
            M::ready(old(memory).model()),
            old(self).cycles <= u64::MAX - 7,
            is_legal_opcode(next_opcode::<M>(*old(self), old(memory).model())),
        ensures
            (*final(self), final(memory).model(), cycles) == step_spec::<M>(
                *old(self),
                old(memory).model(),
            ),
            M::ready(final(memory).model()),
    {
        match self.try_step(memory) {
            Some(c) => c,
            None => 0,
        }
    }
}

} // verus!
