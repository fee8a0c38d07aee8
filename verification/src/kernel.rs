//! Assembly of the complete CUDA source of a compiled kernel: the shared
//! device headers (with their `#include` lines removed, since nvrtc cannot
//! reach host headers), the fixed kernel scaffolding, and one `case` per
//! distinct basic block.
use vstd::prelude::*;
use vstd::string::StringExecFns;
use vstd::string::StrSliceExecFns;
use vstd::std_specs::iter::IteratorSpec;
use crate::atari::BankScheme;
use crate::codegen::{block_text, dec_str, emit_block, emittable, push_dec};
use crate::rom_compiler::{BasicBlock, block_ok, lemma_tables_small, spec_block_id};

verus! {

// ============================================================
// Fixed kernel text
// ============================================================

/// Banner and the fixed-width integer typedefs that nvrtc lacks.
pub const KERNEL_PREAMBLE: &'static str = "// === Auto-generated compiled kernel ===

typedef unsigned char      uint8_t;
typedef signed char        int8_t;
typedef unsigned short     uint16_t;
typedef signed short       int16_t;
typedef unsigned int       uint32_t;
typedef signed int         int32_t;
typedef unsigned long long uint64_t;
typedef signed long long   int64_t;
typedef unsigned long      size_t;

";

/// Joystick action decoding and the multi-scanline TIA tick used by compiled blocks.
pub const ACTION_DISPATCH: &'static str = "
// === Action dispatch ===
__device__ __forceinline__
void apply_action(ThreadCtx* c, uint8_t action) {
    bool up=false, dn=false, lt=false, rt=false, fi=false;
    switch (action) {
        case 0: break; case 1: fi=true; break;
        case 2: up=true; break; case 3: rt=true; break;
        case 4: lt=true; break; case 5: dn=true; break;
        case 6: up=true;rt=true; break; case 7: up=true;lt=true; break;
        case 8: dn=true;rt=true; break; case 9: dn=true;lt=true; break;
        case 10: up=true;fi=true; break; case 11: rt=true;fi=true; break;
        case 12: lt=true;fi=true; break; case 13: dn=true;fi=true; break;
        case 14: up=true;rt=true;fi=true; break; case 15: up=true;lt=true;fi=true; break;
        case 16: dn=true;rt=true;fi=true; break; case 17: dn=true;lt=true;fi=true; break;
    }
    uint8_t swcha = 0xFF;
    if (up) swcha &= ~0x10; if (dn) swcha &= ~0x20;
    if (lt) swcha &= ~0x40; if (rt) swcha &= ~0x80;
    c->port_a_input = swcha;
    c->inpt4 = fi ? 0 : 1;
    c->paddle0 = lt ? 200 : (rt ? 50 : 128);
}

// Batched tick that handles multiple scanline crossings.
// Regular tia_tick_n only handles one; compiled blocks can span >1 scanline.
__device__ __forceinline__
void tia_tick_block(ThreadCtx* c, uint16_t n) {
    c->tia_clock += n * 3;
    while (c->tia_clock >= 228) {
        tia_end_scanline(c);
    }
}

";

/// Opening of the compiled-block dispatcher: its signature and the switch on the block identifier.
pub const DISPATCHER_HEAD: &'static str = "__device__
void run_compiled_block(ThreadCtx* c, uint8_t* mr, uint64_t* cycles,
                       const uint8_t* rp, uint32_t rl,
                       const DecodedOp* __restrict__ dt) {
    uint32_t block_id = ((uint32_t)c->bank << 12) | (c->pc & 0x0FFF);
    switch (block_id) {
";

/// Fallback to the ahead-of-time interpreter for addresses without a compiled block, and the dispatcher's closing braces.
pub const DISPATCHER_TAIL: &'static str = "    default: {
        uint8_t cy = cpu_step_aot(c, mr, rp, rl, dt);
        *cycles += cy;
        tia_tick_n(c, cy);
        pia_tick_n(c, (uint16_t)cy);
        break;
    }
    }
}
";

/// Per-cycle step and frame loop over compiled blocks.
pub const FRAME_RUNNER: &'static str = "
__device__ __forceinline__
void run_one_cycle_compiled(ThreadCtx* c, uint8_t* mr, uint64_t* cycles,
                            const uint8_t* rp, uint32_t rl,
                            const DecodedOp* __restrict__ dt) {
    if (c->tia_wsync) {
        uint16_t skipped = tia_skip_to_scanline_end(c);
        pia_tick_n(c, skipped);
        *cycles += skipped;
    } else {
        run_compiled_block(c, mr, cycles, rp, rl, dt);
    }
}

__device__
void run_frame_compiled(ThreadCtx* c, uint8_t* mr,
                        const uint8_t* rp, uint32_t rl,
                        const DecodedOp* __restrict__ dt) {
    c->tia_frame_complete = 0;
    uint64_t cycles = 0;

    while (c->tia_vsync & 0x02)
        run_one_cycle_compiled(c, mr, &cycles, rp, rl, dt);

    while (!(c->tia_vsync & 0x02)) {
        run_one_cycle_compiled(c, mr, &cycles, rp, rl, dt);
        if (cycles > 100000) break;
    }
}

";

/// Single-frame and multi-frame kernel entry points.
pub const KERNEL_ENTRIES: &'static str = "
extern \"C\" __global__
void atari_frame_kernel_compiled(
    AtariState* __restrict__ states,
    const uint8_t* __restrict__ actions,
    uint8_t* __restrict__ obs_out,
    const uint8_t* __restrict__ rom_ptr,
    uint32_t rom_len,
    const DecodedOp* __restrict__ decode_table,
    int N
) {
    __shared__ uint8_t sram[BLOCK_SIZE][128];
    int idx = blockIdx.x * blockDim.x + threadIdx.x;
    if (idx >= N) return;
    uint8_t* my_ram = sram[threadIdx.x];
    ThreadCtx ctx;
    load_ctx(&ctx, &states[idx]);
    for (int i = 0; i < 128; i++) my_ram[i] = states[idx].ram[i];
    apply_action(&ctx, actions[idx]);
    run_frame_compiled(&ctx, my_ram, rom_ptr, rom_len, decode_table);
    store_ctx(&states[idx], &ctx);
    uint8_t* obs = &obs_out[idx * 128];
    for (int i = 0; i < 128; i++) {
        uint8_t v = my_ram[i];
        states[idx].ram[i] = v;
        obs[i] = v;
    }
}

extern \"C\" __global__
void atari_multi_frame_kernel_compiled(
    AtariState* __restrict__ states,
    const uint8_t* __restrict__ actions,
    uint8_t* __restrict__ obs_out,
    const uint8_t* __restrict__ rom_ptr,
    uint32_t rom_len,
    const DecodedOp* __restrict__ decode_table,
    int K,
    int N
) {
    __shared__ uint8_t sram[BLOCK_SIZE][128];
    int idx = blockIdx.x * blockDim.x + threadIdx.x;
    if (idx >= N) return;
    uint8_t* my_ram = sram[threadIdx.x];
    ThreadCtx ctx;
    load_ctx(&ctx, &states[idx]);
    for (int i = 0; i < 128; i++) my_ram[i] = states[idx].ram[i];
    for (int f = 0; f < K; f++) {
        apply_action(&ctx, actions[f * N + idx]);
        run_frame_compiled(&ctx, my_ram, rom_ptr, rom_len, decode_table);
    }
    store_ctx(&states[idx], &ctx);
    uint8_t* obs = &obs_out[idx * 128];
    for (int i = 0; i < 128; i++) {
        uint8_t v = my_ram[i];
        states[idx].ram[i] = v;
        obs[i] = v;
    }
}

";

/// Section banner in front of each embedded device header.
pub const STATE_LAYOUT_BANNER: &'static str = "// --- state_layout.cuh ---\n";
/// Section banner in front of each embedded device header.
pub const TIA_HEADLESS_BANNER: &'static str = "\n// --- tia_headless.cuh ---\n";
/// Section banner in front of each embedded device header.
pub const PIA_BANNER: &'static str = "\n// --- pia.cuh ---\n";
/// Section banner in front of each embedded device header.
pub const MEMORY_BUS_BANNER: &'static str = "\n// --- memory_bus.cuh ---\n";
/// Section banner in front of each embedded device header.
pub const CPU_6502_BANNER: &'static str = "\n// --- cpu_6502.cuh ---\n";
/// Section banner in front of each embedded device header.
pub const DECODED_OP_BANNER: &'static str = "\n// --- decoded_op.cuh ---\n";
/// Section banner in front of each embedded device header.
pub const CPU_6502_AOT_BANNER: &'static str = "\n// --- cpu_6502_aot.cuh ---\n";

// ============================================================
// Removing `#include` lines
// ============================================================

/// Characters with Unicode's `White_Space` property, which is what
/// `char::is_whitespace` (and so `str::trim_start`) tests.
pub open spec fn is_white_space(c: char) -> bool {
    let u = c as u32;
    ||| 0x09 <= u <= 0x0D
    ||| u == 0x20
    ||| u == 0x85
    ||| u == 0xA0
    ||| u == 0x1680
    ||| 0x2000 <= u <= 0x200A
    ||| u == 0x2028
    ||| u == 0x2029
    ||| u == 0x202F
    ||| u == 0x205F
    ||| u == 0x3000
}

/// `l` without its leading white space.
pub open spec fn trim_start(l: Seq<char>) -> Seq<char>
    decreases l.len(),
{
    if l.len() > 0 && is_white_space(l[0]) {
        trim_start(l.drop_first())
    } else {
        l
    }
}

/// The preprocessor directive whose lines are dropped.
pub open spec fn include_directive() -> Seq<char> {
    seq!['#', 'i', 'n', 'c', 'l', 'u', 'd', 'e']
}

/// A line that, after its leading white space, starts with the directive.
pub open spec fn is_include_line(l: Seq<char>) -> bool {
    let t = trim_start(l);
    t.len() >= 8 && t.subrange(0, 8) == include_directive()
}

/// Position of the first newline in `s` at or after `i`, or the length of
/// `s` if there is none.
pub open spec fn newline_from(s: Seq<char>, i: int) -> int
    decreases s.len() - i,
{
    if i >= s.len() {
        s.len() as int
    } else if s[i] == '\n' {
        i
    } else {
        newline_from(s, i + 1)
    }
}

/// The next newline lies between `i` and the end of the text.
pub proof fn lemma_newline_from_bounds(s: Seq<char>, i: int)
    requires
        0 <= i <= s.len(),
    ensures
        i <= newline_from(s, i) <= s.len(),
        newline_from(s, i) < s.len() ==> s[newline_from(s, i)] == '\n',
    decreases s.len() - i,
{
    if i < s.len() && s[i] != '\n' {
        lemma_newline_from_bounds(s, i + 1);
    }
}

/// A line without the carriage return of a `\r\n` ending.
pub open spec fn without_cr(l: Seq<char>) -> Seq<char> {
    if l.len() > 0 && l.last() == '\r' {
        l.drop_last()
    } else {
        l
    }
}

/// The lines of `s` from position `i` on, split as `str::lines` splits
/// them: at `\n` or `\r\n`, with no empty line after a final line ending.
pub open spec fn lines_from(s: Seq<char>, i: int) -> Seq<Seq<char>>
    decreases s.len() - i,
{
    if i < 0 || i >= s.len() {
        Seq::empty()
    } else {
        let e = newline_from(s, i);
        proof {
            lemma_newline_from_bounds(s, i);
        }
        if e < s.len() {
            seq![without_cr(s.subrange(i, e))] + lines_from(s, e + 1)
        } else {
            seq![s.subrange(i, e)]
        }
    }
}

/// Number of lines that are kept.
pub open spec fn kept_count(ls: Seq<Seq<char>>) -> nat
    decreases ls.len(),
{
    if ls.len() == 0 {
        0
    } else {
        kept_count(ls.drop_last()) + if is_include_line(ls.last()) {
            0nat
        } else {
            1nat
        }
    }
}

/// The lines that are not `#include` lines, joined with `\n`.
pub open spec fn stripped_text(ls: Seq<Seq<char>>) -> Seq<char>
    decreases ls.len(),
{
    if ls.len() == 0 {
        Seq::empty()
    } else {
        let prev = stripped_text(ls.drop_last());
        let l = ls.last();
        if is_include_line(l) {
            prev
        } else if kept_count(ls.drop_last()) > 0 {
            prev + seq!['\n'] + l
        } else {
            l
        }
    }
}

/// Nothing is written while no line has been kept.
proof fn lemma_nothing_kept(ls: Seq<Seq<char>>)
    requires
        kept_count(ls) == 0,
    ensures
        stripped_text(ls) == Seq::<char>::empty(),
    decreases ls.len(),
{
    if ls.len() > 0 {
        lemma_nothing_kept(ls.drop_last());
    }
}

/// Header text with every `#include` line removed.
pub open spec fn strip_includes_text(s: Seq<char>) -> Seq<char> {
    stripped_text(lines_from(s, 0))
}

/// Whether `c` is Unicode white space.
fn is_whitespace(c: char) -> (r: bool)
    ensures
        r == is_white_space(c),
{
    let u = c as u32;
    (0x09 <= u && u <= 0x0D) || u == 0x20 || u == 0x85 || u == 0xA0 || u == 0x1680 || (0x2000 <= u
        && u <= 0x200A) || u == 0x2028 || u == 0x2029 || u == 0x202F || u == 0x205F || u == 0x3000
}

/// The characters of `s`, in order.
fn chars_of(s: &str) -> (v: Vec<char>)
    ensures
        v@ == s@,
{
    broadcast use vstd::string::group_string_axioms;

    let mut it = s.chars();
    let mut v: Vec<char> = Vec::new();
    loop
        invariant
            v@ + it.remaining() == s@,
        ensures
            v@ == s@,
        decreases s@.len() - v@.len(),
    {
        match it.next() {
            Some(c) => {
                proof {
                    assert(v@.push(c) + it.remaining() =~= s@);
                }
                v.push(c);
            },
            None => {
                proof {
                    assert(v@ =~= s@);
                }
                break ;
            },
        }
    }
    v
}

/// Strip all `#include` lines from embedded header source: nvrtc has no
/// access to the host's headers.
pub fn strip_includes(src: &str) -> (r: String)
    ensures
        r@ == strip_includes_text(src@),
{
    let chars = chars_of(src);
    let n = chars.len();
    let ghost s = src@;
    let mut out = String::new();
    let mut any_kept = false;
    let mut pos: usize = 0;
    let ghost mut done: Seq<Seq<char>> = Seq::empty();
    proof {
        reveal_strlit("\n");
    }
    while pos < n
        invariant
            chars@ == s,
            s == src@,
            n == s.len(),
            pos <= n,
            lines_from(s, 0) == done + lines_from(s, pos as int),
            out@ == stripped_text(done),
            any_kept == (kept_count(done) > 0),
            "\n"@ == seq!['\n'],
        decreases n - pos,
    {
        // End of the line
        let mut e = pos;
        while e < n && chars[e] != '\n'
            invariant
                pos <= e <= n,
                pos < n,
                n == chars@.len(),
                newline_from(chars@, pos as int) == newline_from(chars@, e as int),
            decreases n - e,
        {
            e = e + 1;
        }
        assert(e == newline_from(s, pos as int));
        let end = if e < n && e > pos && chars[e - 1] == '\r' {
            e - 1
        } else {
            e
        };
        let ghost line = s.subrange(pos as int, end as int);
        // Leading white space
        let mut j = pos;
        while j < end && is_whitespace(chars[j])
            invariant
                pos <= j <= end,
                end <= n,
                n == chars@.len(),
                trim_start(chars@.subrange(pos as int, end as int)) == trim_start(
                    chars@.subrange(j as int, end as int),
                ),
            decreases end - j,
        {
            assert(chars@.subrange(j as int, end as int).drop_first() =~= chars@.subrange(
                j + 1,
                end as int,
            ));
            j = j + 1;
        }
        assert(trim_start(line) == chars@.subrange(j as int, end as int));
        let is_include = end - j >= 8 && chars[j] == '#' && chars[j + 1] == 'i' && chars[j + 2]
            == 'n' && chars[j + 3] == 'c' && chars[j + 4] == 'l' && chars[j + 5] == 'u' && chars[j
            + 6] == 'd' && chars[j + 7] == 'e';
        assert(is_include == is_include_line(line)) by {
            if end - j >= 8 {
                let t = chars@.subrange(j as int, end as int);
                if is_include {
                    assert(t.subrange(0, 8) =~= include_directive());
                } else {
                    assert(t.subrange(0, 8) != include_directive()) by {
                        if t.subrange(0, 8) == include_directive() {
                            assert(t.subrange(0, 8)[0] == '#');
                            assert(t.subrange(0, 8)[1] == 'i');
                            assert(t.subrange(0, 8)[2] == 'n');
                            assert(t.subrange(0, 8)[3] == 'c');
                            assert(t.subrange(0, 8)[4] == 'l');
                            assert(t.subrange(0, 8)[5] == 'u');
                            assert(t.subrange(0, 8)[6] == 'd');
                            assert(t.subrange(0, 8)[7] == 'e');
                        }
                    }
                }
            }
        }
        if !is_include {
            if any_kept {
                out.append("\n");
            }
            let piece = src.substring_char(pos, end);
            out.append(piece);
            any_kept = true;
        }
        let next = if e < n {
            e + 1
        } else {
            n
        };
        proof {
            lemma_newline_from_bounds(s, pos as int);
            assert(line == (if e < n {
                without_cr(s.subrange(pos as int, e as int))
            } else {
                s.subrange(pos as int, e as int)
            })) by {
                if e < n && e > pos && s[e - 1] == '\r' {
                    assert(s.subrange(pos as int, e as int).drop_last() =~= line);
                } else {
                    assert(s.subrange(pos as int, e as int) =~= line);
                }
            }
            assert(lines_from(s, pos as int) == seq![line] + lines_from(s, next as int)) by {
                if e == n {
                    assert(seq![line] + lines_from(s, next as int) =~= seq![line]);
                }
            }
            let nd = done.push(line);
            assert(nd.drop_last() =~= done);
            assert(nd.last() == line);
            if !is_include && kept_count(done) == 0 {
                lemma_nothing_kept(done);
            }
            assert(done + (seq![line] + lines_from(s, next as int)) =~= nd + lines_from(
                s,
                next as int,
            ));
            assert(out@ =~= stripped_text(nd));
            done = nd;
        }
        pos = next;
    }
    proof {
        assert(done + lines_from(s, pos as int) =~= done);
    }
    out
}

// ============================================================
// Distinct blocks
// ============================================================

/// Whether a block before position `i` has the same identifier as the block
/// at `i` (mirrored addresses that share a ROM offset do).
pub open spec fn seen_before(bs: Seq<BasicBlock>, i: int) -> bool {
    exists|j: int|
        0 <= j < i && #[trigger] spec_block_id(bs[j].bank, bs[j].start_pc) == spec_block_id(
            bs[i].bank,
            bs[i].start_pc,
        )
}

/// The blocks whose identifier has not occurred earlier, in order.
pub open spec fn unique_blocks(bs: Seq<BasicBlock>) -> Seq<BasicBlock>
    decreases bs.len(),
{
    if bs.len() == 0 {
        Seq::empty()
    } else {
        let prev = unique_blocks(bs.drop_last());
        if seen_before(bs, bs.len() - 1) {
            prev
        } else {
            prev.push(bs.last())
        }
    }
}

/// Identifier of a block.
pub open spec fn id_of(b: BasicBlock) -> int {
    spec_block_id(b.bank, b.start_pc)
}

/// Deduplication keeps one block per identifier and loses none: every kept
/// block is one of the given blocks, every given identifier is kept, and no
/// identifier is kept twice.
pub proof fn lemma_unique_blocks(bs: Seq<BasicBlock>)
    ensures
        forall|k: int|
            #![trigger unique_blocks(bs)[k]]
            0 <= k < unique_blocks(bs).len() ==> exists|j: int|
                0 <= j < bs.len() && #[trigger] bs[j] == unique_blocks(bs)[k],
        forall|j: int|
            #![trigger bs[j]]
            0 <= j < bs.len() ==> exists|k: int|
                0 <= k < unique_blocks(bs).len() && #[trigger] id_of(unique_blocks(bs)[k]) == id_of(
                    bs[j],
                ),
        forall|k1: int, k2: int|
            0 <= k1 < k2 < unique_blocks(bs).len() ==> id_of(unique_blocks(bs)[k1]) != id_of(
                unique_blocks(bs)[k2],
            ),
    decreases bs.len(),
{
    if bs.len() > 0 {
        let pre = bs.drop_last();
        let u0 = unique_blocks(pre);
        let u = unique_blocks(bs);
        let n = bs.len() - 1;
        lemma_unique_blocks(pre);
        assert forall|k: int| #![trigger u[k]] 0 <= k < u.len() implies exists|j: int|
            0 <= j < bs.len() && #[trigger] bs[j] == u[k] by {
            if k < u0.len() {
                let j = choose|j: int| 0 <= j < pre.len() && #[trigger] pre[j] == u0[k];
                assert(bs[j] == u[k]);
            } else {
                assert(bs[n] == u[k]);
            }
        }
        assert forall|j: int| #![trigger bs[j]] 0 <= j < bs.len() implies exists|k: int|
            0 <= k < u.len() && #[trigger] id_of(u[k]) == id_of(bs[j]) by {
            assert(u0.len() <= u.len());
            if j < n {
                assert(pre[j] == bs[j]);
                let k = choose|k: int| 0 <= k < u0.len() && #[trigger] id_of(u0[k]) == id_of(pre[j]);
                assert(u[k] == u0[k]);
                assert(id_of(u[k]) == id_of(bs[j]));
            } else if seen_before(bs, n) {
                let j2 = choose|j2: int|
                    0 <= j2 < n && #[trigger] spec_block_id(bs[j2].bank, bs[j2].start_pc)
                        == spec_block_id(bs[n].bank, bs[n].start_pc);
                assert(pre[j2] == bs[j2]);
                let k = choose|k: int| 0 <= k < u0.len() && #[trigger] id_of(u0[k]) == id_of(pre[j2]);
                assert(u[k] == u0[k]);
                assert(id_of(u[k]) == id_of(bs[j]));
            } else {
                assert(u[u0.len() as int] == bs[n]);
                assert(id_of(u[u0.len() as int]) == id_of(bs[j]));
            }
        }
        assert forall|k1: int, k2: int| 0 <= k1 < k2 < u.len() implies id_of(u[k1]) != id_of(
            u[k2],
        ) by {
            if k2 < u0.len() {
                assert(u[k1] == u0[k1] && u[k2] == u0[k2]);
            } else {
                assert(u[k1] == u0[k1]);
                assert(u[k2] == bs[n]);
                let j = choose|j: int| 0 <= j < pre.len() && #[trigger] pre[j] == u0[k1];
                if id_of(u[k1]) == id_of(u[k2]) {
                    assert(bs[j] == pre[j]);
                    assert(spec_block_id(bs[j].bank, bs[j].start_pc) == spec_block_id(
                        bs[n].bank,
                        bs[n].start_pc,
                    ));
                    assert(seen_before(bs, n));
                }
            }
        }
    }
}

/// The `case` code of a run of blocks.
pub open spec fn blocks_text(bs: Seq<BasicBlock>) -> Seq<char>
    decreases bs.len(),
{
    if bs.len() == 0 {
        Seq::empty()
    } else {
        blocks_text(bs.drop_last()) + block_text(bs.last())
    }
}

/// Positions in `blocks` of the first block of each identifier, in order.
fn unique_block_indices(blocks: &[BasicBlock]) -> (idx: Vec<usize>)
    ensures
        idx@.len() == unique_blocks(blocks@).len(),
        forall|k: int|
            0 <= k < idx@.len() ==> #[trigger] idx@[k] < blocks@.len() && blocks@[idx@[k] as int]
                == unique_blocks(blocks@)[k],
{
    let n = blocks.len();
    let mut seen: Vec<u32> = Vec::new();
    let mut idx: Vec<usize> = Vec::new();
    let mut i: usize = 0;
    while i < n
        invariant
            i <= n,
            n == blocks@.len(),
            seen@.len() == i,
            forall|j: int|
                0 <= j < i ==> seen@[j] == spec_block_id(blocks@[j].bank, blocks@[j].start_pc),
            idx@.len() == unique_blocks(blocks@.take(i as int)).len(),
            forall|k: int|
                0 <= k < idx@.len() ==> #[trigger] idx@[k] < i && blocks@[idx@[k] as int] == unique_blocks(
                    blocks@.take(i as int),
                )[k],
        decreases n - i,
    {
        let id = blocks[i].block_id();
        let mut found = false;
        let mut j: usize = 0;
        while j < i
            invariant
                j <= i,
                i < n,
                n == blocks@.len(),
                seen@.len() == i,
                forall|k: int|
                    0 <= k < i ==> seen@[k] == spec_block_id(blocks@[k].bank, blocks@[k].start_pc),
                id == spec_block_id(blocks@[i as int].bank, blocks@[i as int].start_pc),
                found <==> exists|k: int| 0 <= k < j && seen@[k] == id,
            decreases i - j,
        {
            if seen[j] == id {
                found = true;
            }
            j = j + 1;
        }
        let ghost pre = blocks@.take(i as int);
        let ghost cur = blocks@.take(i + 1);
        proof {
            assert(cur.drop_last() =~= pre);
            assert(cur.last() == blocks@[i as int]);
            assert(found == seen_before(cur, i as int)) by {
                if found {
                    let k = choose|k: int| 0 <= k < i && seen@[k] == id;
                    assert(cur[k] == blocks@[k]);
                    assert(spec_block_id(cur[k].bank, cur[k].start_pc) == spec_block_id(
                        cur[i as int].bank,
                        cur[i as int].start_pc,
                    ));
                }
                if seen_before(cur, i as int) {
                    let k = choose|k: int|
                        0 <= k < i && #[trigger] spec_block_id(cur[k].bank, cur[k].start_pc)
                            == spec_block_id(cur[i as int].bank, cur[i as int].start_pc);
                    assert(cur[k] == blocks@[k]);
                    assert(seen@[k] == id);
                }
            }
        }
        proof {
            assert(unique_blocks(cur) == if found {
                unique_blocks(pre)
            } else {
                unique_blocks(pre).push(blocks@[i as int])
            });
        }
        let ghost old_idx = idx@;
        if !found {
            idx.push(i);
        }
        proof {
            let nu = unique_blocks(cur);
            assert forall|k: int| 0 <= k < idx@.len() implies #[trigger] idx@[k] < i + 1 && blocks@[idx@[k] as int]
                == nu[k] by {
                if k < old_idx.len() {
                    assert(idx@[k] == old_idx[k]);
                    assert(unique_blocks(pre)[k] == nu[k]);
                } else {
                    assert(idx@[k] == i);
                }
            }
        }
        seen.push(id);
        i = i + 1;
    }
    proof {
        assert(blocks@.take(n as int) =~= blocks@);
    }
    idx
}

// ============================================================
// The whole kernel
// ============================================================

/// Every block that block discovery accepts can be compiled: it has an exit
/// instruction where its exit needs one, and a branch exit ends in a branch
/// opcode whose taken-path cycle count fits in a byte.
pub proof fn lemma_found_blocks_compile(rom: Seq<u8>, scheme: BankScheme, b: BasicBlock)
    requires
        block_ok(rom, scheme, b),
    ensures
        emittable(b),
{
    let ins = b.instructions@;
    let k = ins.len() - 1;
    assert(ins[k] == crate::rom_compiler::decoded_at(rom, scheme, b.bank, ins[k].pc));
    lemma_tables_small(ins[k].opcode);
}

/// Text of the device headers the kernel is built on, in the order they
/// are embedded.
pub struct KernelHeaders {
    pub state_layout: String,
    pub tia_headless: String,
    pub pia: String,
    pub memory_bus: String,
    pub cpu_6502: String,
    pub decoded_op: String,
    pub cpu_6502_aot: String,
}

/// A banner, a header with its `#include` lines removed, and a newline.
pub open spec fn header_section(banner: Seq<char>, header: Seq<char>) -> Seq<char> {
    banner + strip_includes_text(header) + "\n"@
}

/// All embedded headers, each under its banner.
pub open spec fn headers_text(h: KernelHeaders) -> Seq<char> {
    header_section(STATE_LAYOUT_BANNER@, h.state_layout@) + header_section(
        TIA_HEADLESS_BANNER@,
        h.tia_headless@,
    ) + header_section(PIA_BANNER@, h.pia@) + header_section(MEMORY_BUS_BANNER@, h.memory_bus@)
        + header_section(CPU_6502_BANNER@, h.cpu_6502@) + header_section(
        DECODED_OP_BANNER@,
        h.decoded_op@,
    ) + header_section(CPU_6502_AOT_BANNER@, h.cpu_6502_aot@)
}

/// The compiled-block dispatcher: one `case` per distinct block, then the
/// fallback to the interpreter.
pub open spec fn dispatcher_text(blocks: Seq<BasicBlock>) -> Seq<char> {
    let u = unique_blocks(blocks);
    "// === Compiled block dispatcher ("@ + dec_str(u.len()) + " unique blocks) ===\n"@
        + DISPATCHER_HEAD@ + blocks_text(u) + DISPATCHER_TAIL@
}

/// The complete CUDA source of a compiled kernel.
pub open spec fn compiled_source_text(blocks: Seq<BasicBlock>, h: KernelHeaders) -> Seq<char> {
    KERNEL_PREAMBLE@ + headers_text(h) + ACTION_DISPATCH@ + dispatcher_text(blocks) + FRAME_RUNNER@
        + KERNEL_ENTRIES@
}

/// Append a banner and a header without its `#include` lines.
fn push_header(out: &mut String, banner: &str, header: &String)
    ensures
        final(out)@ == old(out)@ + header_section(banner@, header@),
{
    out.append(banner);
    let stripped = strip_includes(header.as_str());
    out.append(stripped.as_str());
    out.append("\n");
}

/// Generate the complete CUDA source for a compiled kernel: the headers,
/// the fixed scaffolding, and one `case` per distinct block identifier
/// (mirror addresses that map to the same ROM offset are emitted once).
#[verifier::spinoff_prover]
#[verifier::rlimit(30)]
pub fn generate_compiled_source(
    blocks: &[BasicBlock],
    _rom: &[u8],
    _scheme: BankScheme,
    headers: &KernelHeaders,
) -> (r: String)
    requires
        forall|i: int| 0 <= i < blocks@.len() ==> emittable(#[trigger] blocks@[i]),
    ensures
        r@ == compiled_source_text(blocks@, *headers),
{
    let mut src = String::new();
    src.append(KERNEL_PREAMBLE);
    let ghost h0 = src@;
    push_header(&mut src, STATE_LAYOUT_BANNER, &headers.state_layout);
    push_header(&mut src, TIA_HEADLESS_BANNER, &headers.tia_headless);
    push_header(&mut src, PIA_BANNER, &headers.pia);
    push_header(&mut src, MEMORY_BUS_BANNER, &headers.memory_bus);
    push_header(&mut src, CPU_6502_BANNER, &headers.cpu_6502);
    push_header(&mut src, DECODED_OP_BANNER, &headers.decoded_op);
    push_header(&mut src, CPU_6502_AOT_BANNER, &headers.cpu_6502_aot);
    proof {
        assert(src@ =~= KERNEL_PREAMBLE@ + headers_text(*headers));
    }
    src.append(ACTION_DISPATCH);
    let ghost before = src@;
    // Deduplicate blocks by identifier
    let idx = unique_block_indices(blocks);
    let ghost u = unique_blocks(blocks@);
    src.append("// === Compiled block dispatcher (");
    push_dec(&mut src, idx.len() as u64);
    src.append(" unique blocks) ===\n");
    src.append(DISPATCHER_HEAD);
    let ghost head = src@;
    let mut k: usize = 0;
    while k < idx.len()
        invariant
            k <= idx@.len(),
            idx@.len() == u.len(),
            u == unique_blocks(blocks@),
            forall|m: int|
                0 <= m < idx@.len() ==> #[trigger] idx@[m] < blocks@.len() && blocks@[idx@[m] as int]
                    == u[m],
            forall|i: int| 0 <= i < blocks@.len() ==> emittable(#[trigger] blocks@[i]),
            src@ == head + blocks_text(u.take(k as int)),
        decreases idx@.len() - k,
    {
        let b = &blocks[idx[k]];
        let text = emit_block(b);
        src.append(text.as_str());
        proof {
            assert(u.take(k + 1).drop_last() =~= u.take(k as int));
            assert(src@ =~= head + blocks_text(u.take(k + 1)));
        }
        k = k + 1;
    }
    proof {
        assert(u.take(k as int) =~= u);
    }
    src.append(DISPATCHER_TAIL);
    src.append(FRAME_RUNNER);
    src.append(KERNEL_ENTRIES);
    proof {
        assert(src@ =~= compiled_source_text(blocks@, *headers));
    }
    src
}

} // verus!
