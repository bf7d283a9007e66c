use vstd::prelude::*;
use crate::decode::{lemma_spec_decode_valid, spec_decode, Instr};
use crate::sem::{
    cell_pos, row_cell, spec_call, spec_cls, spec_cycle, spec_draw, spec_draw_cols,
    spec_draw_rows, spec_exec, spec_fetch_word, spec_first_key_from, spec_ret, sprite_bit,
    sprite_blank, sprite_pixel,
};
use crate::view::{MachineView, DISP_SIZE, MEM_SIZE};

verus! {

/// Every cell a sprite pixel can land on lies inside the framebuffer.
proof fn lemma_cell_pos_range(x0: int, yr: int, c: int)
    requires
        0 <= x0,
        0 <= c,
        0 <= yr < 32,
    ensures
        yr * 64 <= cell_pos(x0, yr, c) < yr * 64 + 64,
        0 <= cell_pos(x0, yr, c) < DISP_SIZE,
{
}

/// Drawing one sprite row never changes the framebuffer's size.
proof fn lemma_draw_cols_len(fb: Seq<bool>, byte: u8, x0: int, yr: int, ncols: nat)
    requires
        fb.len() == DISP_SIZE,
        0 <= x0,
        0 <= yr < 32,
    ensures
        spec_draw_cols(fb, byte, x0, yr, ncols).0.len() == DISP_SIZE,
    decreases ncols,
{
    if ncols > 0 {
        lemma_draw_cols_len(fb, byte, x0, yr, (ncols - 1) as nat);
        lemma_cell_pos_range(x0, yr, ncols - 1);
    }
}

/// Drawing a whole sprite never changes the framebuffer's size.
proof fn lemma_draw_rows_len(fb: Seq<bool>, mem: Seq<u8>, i: int, x0: int, y0: int, nrows: nat)
    requires
        fb.len() == DISP_SIZE,
        0 <= x0,
        0 <= y0 < 32,
    ensures
        spec_draw_rows(fb, mem, i, x0, y0, nrows).0.len() == DISP_SIZE,
    decreases nrows,
{
    if nrows > 0 {
        lemma_draw_rows_len(fb, mem, i, x0, y0, (nrows - 1) as nat);
        let prev = spec_draw_rows(fb, mem, i, x0, y0, (nrows - 1) as nat);
        lemma_draw_cols_len(prev.0, mem[i + nrows - 1], x0, (y0 + nrows - 1) % 32, 8);
    }
}

/// Executing any valid instruction leaves a well-formed machine, whether it
/// succeeds or faults.
pub proof fn lemma_exec_preserves_wf(pre: MachineView, instr: Instr, rand_byte: u8)
    requires
        pre.wf(),
        instr.valid(),
    ensures
        spec_exec(pre, instr, rand_byte).0.wf(),
{
    match instr {
        Instr::Drw(x, y, n) => {
            if pre.index + n <= MEM_SIZE {
                let x0 = pre.v[x as int] % 64;
                let y0 = pre.v[y as int] % 32;
                lemma_draw_rows_len(
                    pre.display,
                    pre.mem,
                    pre.index as int,
                    x0 as int,
                    y0 as int,
                    n as nat,
                );
            }
        },
        _ => {},
    }
}

/// Cycling preserves well-formedness: however a cycle ends, memory is still
/// exactly 4096 bytes, the framebuffer 64 by 32 cells, the register file 16
/// registers, and the stack within its 16 slots. Every read and write the
/// handlers make is verified against these bounds, so no sequence of cycles
/// from a loaded program ever touches memory outside [0, 4096).
pub proof fn lemma_cycle_preserves_wf(pre: MachineView, rand_byte: u8)
    requires
        pre.wf(),
    ensures
        spec_cycle(pre, rand_byte).0.wf(),
{
    if pre.pc + 1 < MEM_SIZE {
        let op = spec_fetch_word(pre);
        let adv = MachineView { pc: (pre.pc + 2) as u16, ..pre };
        lemma_spec_decode_valid(op);
        match spec_decode(op) {
            None => {},
            Some(instr) => {
                lemma_exec_preserves_wf(adv, instr, rand_byte);
            },
        }
    }
}

/// A subroutine round trip: a call pushes the already-advanced program
/// counter, and a later return that finds that slot and depth intact
/// restores the program counter to it, so execution resumes at the
/// instruction immediately after the call.
pub proof fn lemma_call_ret_round_trip(pre: MachineView, nnn: u16, mid: MachineView)
    requires
        pre.wf(),
        pre.sp < 16,
        mid.wf(),
        mid.sp == pre.sp + 1,
        mid.stack[pre.sp as int] == spec_call(pre, nnn).0.stack[pre.sp as int],
    ensures
        spec_call(pre, nnn).1 is None,
        spec_call(pre, nnn).0.stack[pre.sp as int] == pre.pc,
        spec_call(pre, nnn).0.pc == nnn,
        spec_ret(mid).1 is None,
        spec_ret(mid).0.pc == pre.pc,
        spec_ret(mid).0.sp == pre.sp,
{
}

/// Below slot `k` every key is known unpressed, and from `k` on none is
/// pressed either: no key is found.
proof fn lemma_first_key_none(keys: Seq<bool>, k: int)
    requires
        0 <= k <= 16,
        forall|j: int| k <= j < 16 ==> !keys[j],
    ensures
        spec_first_key_from(keys, k) is None,
    decreases 16 - k,
{
    if k < 16 {
        lemma_first_key_none(keys, k + 1);
    }
}

/// The scan from `start` finds exactly the lowest pressed key.
proof fn lemma_first_key_found(keys: Seq<bool>, start: int, k: int)
    requires
        0 <= start <= k < 16,
        keys[k],
        forall|j: int| start <= j < k ==> !keys[j],
    ensures
        spec_first_key_from(keys, start) == Some(k as u8),
    decreases k - start,
{
    if start < k {
        lemma_first_key_found(keys, start + 1, k);
    }
}

/// Key-wait with no key pressed: a cycle whose fetched word is a wait-for-key
/// instruction completes without fault and leaves the program counter where
/// it was, so the same instruction re-executes on the next cycle; registers,
/// framebuffer, memory, and stack are untouched (only the timers count down).
pub proof fn lemma_key_wait_repeats(m: MachineView, rand_byte: u8, x: u8)
    requires
        m.wf(),
        m.pc + 1 < MEM_SIZE,
        spec_decode(spec_fetch_word(m)) == Some(Instr::LdVxK(x)),
        forall|k: int| 0 <= k < 16 ==> !m.keys[k],
    ensures
        spec_cycle(m, rand_byte).1 is None,
        spec_cycle(m, rand_byte).0.pc == m.pc,
        spec_cycle(m, rand_byte).0.v == m.v,
        spec_cycle(m, rand_byte).0.display == m.display,
        spec_cycle(m, rand_byte).0.mem == m.mem,
        spec_cycle(m, rand_byte).0.stack == m.stack,
        spec_cycle(m, rand_byte).0.sp == m.sp,
        spec_cycle(m, rand_byte).0.keys == m.keys,
{
    lemma_first_key_none(m.keys, 0);
}

/// Key-wait with a key pressed: the cycle completes, the lowest-indexed
/// pressed key is latched into Vx, and the program counter advances to the
/// next instruction as it does for any other instruction.
pub proof fn lemma_key_wait_latches(m: MachineView, rand_byte: u8, x: u8, k: u8)
    requires
        m.wf(),
        m.pc + 1 < MEM_SIZE,
        spec_decode(spec_fetch_word(m)) == Some(Instr::LdVxK(x)),
        k < 16,
        m.keys[k as int],
        forall|j: int| 0 <= j < k ==> !m.keys[j],
    ensures
        spec_cycle(m, rand_byte).1 is None,
        spec_cycle(m, rand_byte).0.pc == m.pc + 2,
        spec_cycle(m, rand_byte).0.v == m.v.update(x as int, k),
{
    lemma_spec_decode_valid(spec_fetch_word(m));
    lemma_first_key_found(m.keys, 0, k as int);
}

/// Clearing the display unlights every cell, whatever was drawn before.
pub proof fn lemma_clear_unlights_all(m: MachineView)
    ensures
        spec_cls(m).display.len() == DISP_SIZE,
        forall|p: int| 0 <= p < DISP_SIZE ==> !spec_cls(m).display[p],
        spec_cls(m).mem == m.mem,
        spec_cls(m).v == m.v,
        spec_cls(m).pc == m.pc,
{
}

/// A skip instruction whose condition holds skips the following instruction
/// entirely: the cycle ends with the program counter two instructions ahead,
/// and nothing but the timers has changed, so the skipped instruction's side
/// effects never occur.
pub proof fn lemma_skip_true_skips_next(m: MachineView, rand_byte: u8, x: u8, kk: u8)
    requires
        m.wf(),
        m.pc + 1 < MEM_SIZE,
        spec_decode(spec_fetch_word(m)) == Some(Instr::SeByte(x, kk)),
        m.v[x as int] == kk,
    ensures
        spec_cycle(m, rand_byte).1 is None,
        spec_cycle(m, rand_byte).0.pc == m.pc + 4,
        spec_cycle(m, rand_byte).0.v == m.v,
        spec_cycle(m, rand_byte).0.display == m.display,
        spec_cycle(m, rand_byte).0.mem == m.mem,
        spec_cycle(m, rand_byte).0.stack == m.stack,
        spec_cycle(m, rand_byte).0.sp == m.sp,
{
}

/// A skip instruction whose condition fails lets the following instruction
/// run: the cycle ends with the program counter one instruction ahead.
pub proof fn lemma_skip_false_continues(m: MachineView, rand_byte: u8, x: u8, kk: u8)
    requires
        m.wf(),
        m.pc + 1 < MEM_SIZE,
        spec_decode(spec_fetch_word(m)) == Some(Instr::SeByte(x, kk)),
        m.v[x as int] != kk,
    ensures
        spec_cycle(m, rand_byte).1 is None,
        spec_cycle(m, rand_byte).0.pc == m.pc + 2,
        spec_cycle(m, rand_byte).0.v == m.v,
{
}

/// Two different columns of one sprite row land on different cells.
proof fn lemma_cell_pos_distinct(x0: int, yr: int, c1: int, c2: int)
    requires
        0 <= x0 < 64,
        0 <= c1 < 8,
        0 <= c2 < 8,
        c1 != c2,
    ensures
        cell_pos(x0, yr, c1) != cell_pos(x0, yr, c2),
{
    assert((x0 + c1) % 64 == (if x0 + c1 < 64 {
        x0 + c1
    } else {
        x0 + c1 - 64
    }));
    assert((x0 + c2) % 64 == (if x0 + c2 < 64 {
        x0 + c2
    } else {
        x0 + c2 - 64
    }));
}

/// Cells on different framebuffer rows are different.
proof fn lemma_cell_pos_row_distinct(x01: int, x02: int, yr1: int, yr2: int, c1: int, c2: int)
    requires
        0 <= x01,
        0 <= c1,
        0 <= x02,
        0 <= c2,
        yr1 != yr2,
    ensures
        cell_pos(x01, yr1, c1) != cell_pos(x02, yr2, c2),
{
    assert(0 <= (x01 + c1) % 64 < 64);
    assert(0 <= (x02 + c2) % 64 < 64);
}

/// Two different rows of a sprite of at most 16 rows land on different
/// framebuffer rows, even wrapping at 32.
proof fn lemma_wrapped_rows_distinct(y0: int, r1: int, r2: int)
    requires
        0 <= y0 < 32,
        0 <= r1 < 16,
        0 <= r2 < 16,
        r1 != r2,
    ensures
        (y0 + r1) % 32 != (y0 + r2) % 32,
{
    assert((y0 + r1) % 32 == (if y0 + r1 < 32 {
        y0 + r1
    } else {
        y0 + r1 - 32
    }));
    assert((y0 + r2) % 32 == (if y0 + r2 < 32 {
        y0 + r2
    } else {
        y0 + r2 - 32
    }));
}

/// Whether drawing columns 0 up to `ncols` of one sprite row writes cell `p`.
spec fn col_touched(byte: u8, x0: int, yr: int, ncols: nat, p: int) -> bool {
    exists|c: int| 0 <= c < ncols && sprite_bit(byte, c) && p == #[trigger] cell_pos(x0, yr, c)
}

/// Whether drawing columns 0 up to `ncols` of one sprite row onto `fb` turns
/// some lit cell off.
spec fn col_hit(byte: u8, x0: int, yr: int, ncols: nat, fb: Seq<bool>) -> bool {
    exists|c: int| 0 <= c < ncols && sprite_bit(byte, c) && fb[#[trigger] cell_pos(x0, yr, c)]
}

/// Whether drawing rows 0 up to `nrows` of the sprite writes cell `p`.
spec fn row_touched(mem: Seq<u8>, i: int, x0: int, y0: int, nrows: nat, p: int) -> bool {
    exists|rr: int, c: int|
        0 <= rr < nrows && 0 <= c < 8 && sprite_pixel(mem, i, rr, c) && p == #[trigger] row_cell(
            x0,
            y0,
            rr,
            c,
        )
}

/// Whether drawing rows 0 up to `nrows` of the sprite onto `fb` turns some
/// lit cell off.
spec fn row_hit(mem: Seq<u8>, i: int, x0: int, y0: int, nrows: nat, fb: Seq<bool>) -> bool {
    exists|rr: int, c: int|
        0 <= rr < nrows && 0 <= c < 8 && sprite_pixel(mem, i, rr, c) && fb[#[trigger] row_cell(
            x0,
            y0,
            rr,
            c,
        )]
}

/// Drawing one sprite row, cell by cell: every addressed cell holds its old
/// value XOR its sprite bit, every other cell is untouched, and a collision
/// is reported exactly when some lit sprite bit met a lit cell.
proof fn lemma_draw_cols_char(fb: Seq<bool>, byte: u8, x0: int, yr: int, ncols: nat)
    requires
        fb.len() == DISP_SIZE,
        0 <= x0 < 64,
        0 <= yr < 32,
        ncols <= 8,
    ensures
        ({
            let r = spec_draw_cols(fb, byte, x0, yr, ncols);
            &&& r.0.len() == DISP_SIZE
            &&& forall|c: int|
                0 <= c < ncols ==> r.0[#[trigger] cell_pos(x0, yr, c)] == (fb[cell_pos(x0, yr, c)]
                    != sprite_bit(byte, c))
            &&& forall|p: int|
                0 <= p < DISP_SIZE && !col_touched(byte, x0, yr, ncols, p) ==> r.0[p] == fb[p]
            &&& (r.1 <==> col_hit(byte, x0, yr, ncols, fb))
        }),
    decreases ncols,
{
    if ncols > 0 {
        let c = ncols - 1;
        let prevn = (ncols - 1) as nat;
        lemma_draw_cols_char(fb, byte, x0, yr, prevn);
        let prev = spec_draw_cols(fb, byte, x0, yr, prevn);
        let r = spec_draw_cols(fb, byte, x0, yr, ncols);
        lemma_cell_pos_range(x0, yr, c);
        let pos = cell_pos(x0, yr, c);
        assert(!col_touched(byte, x0, yr, prevn, pos)) by {
            if col_touched(byte, x0, yr, prevn, pos) {
                let c2 = choose|c2: int|
                    0 <= c2 < prevn && sprite_bit(byte, c2) && pos == #[trigger] cell_pos(
                        x0,
                        yr,
                        c2,
                    );
                lemma_cell_pos_distinct(x0, yr, c2, c);
            }
        }
        assert(prev.0[pos] == fb[pos]);
        assert forall|c2: int| 0 <= c2 < ncols implies r.0[#[trigger] cell_pos(x0, yr, c2)] == (
        fb[cell_pos(x0, yr, c2)] != sprite_bit(byte, c2)) by {
            lemma_cell_pos_range(x0, yr, c2);
            if c2 < c {
                lemma_cell_pos_distinct(x0, yr, c2, c);
            }
        }
        assert forall|p: int|
            0 <= p < DISP_SIZE && !col_touched(byte, x0, yr, ncols, p) implies r.0[p] == fb[p] by {
            assert(!col_touched(byte, x0, yr, prevn, p)) by {
                if col_touched(byte, x0, yr, prevn, p) {
                    let c2 = choose|c2: int|
                        0 <= c2 < prevn && sprite_bit(byte, c2) && p == #[trigger] cell_pos(
                            x0,
                            yr,
                            c2,
                        );
                    assert(col_touched(byte, x0, yr, ncols, p));
                }
            }
            if sprite_bit(byte, c) {
                assert(col_touched(byte, x0, yr, ncols, pos));
                assert(p != pos);
            }
        }
        assert(r.1 <==> col_hit(byte, x0, yr, ncols, fb)) by {
            if r.1 {
                if prev.1 {
                    let c2 = choose|c2: int|
                        0 <= c2 < prevn && sprite_bit(byte, c2) && fb[#[trigger] cell_pos(
                            x0,
                            yr,
                            c2,
                        )];
                    assert(col_hit(byte, x0, yr, ncols, fb));
                } else {
                    assert(sprite_bit(byte, c) && fb[cell_pos(x0, yr, c)]);
                    assert(col_hit(byte, x0, yr, ncols, fb));
                }
            }
            if col_hit(byte, x0, yr, ncols, fb) {
                let c2 = choose|c2: int|
                    0 <= c2 < ncols && sprite_bit(byte, c2) && fb[#[trigger] cell_pos(x0, yr, c2)];
                if c2 < c {
                    assert(col_hit(byte, x0, yr, prevn, fb));
                    assert(prev.1);
                } else {
                    assert(fb[pos] && sprite_bit(byte, c));
                }
            }
        }
    }
}

/// The cell a given sprite row and column land on is written by no earlier
/// sprite row.
proof fn lemma_earlier_rows_miss(
    mem: Seq<u8>,
    i: int,
    x0: int,
    y0: int,
    nrows_prev: nat,
    m: int,
    c: int,
)
    requires
        0 <= x0 < 64,
        0 <= y0 < 32,
        0 <= c < 8,
        0 <= m < 16,
        nrows_prev <= m,
    ensures
        !row_touched(mem, i, x0, y0, nrows_prev, row_cell(x0, y0, m, c)),
{
    if row_touched(mem, i, x0, y0, nrows_prev, row_cell(x0, y0, m, c)) {
        let (rr2, c2) = choose|rr2: int, c2: int|
            0 <= rr2 < nrows_prev && 0 <= c2 < 8 && sprite_pixel(mem, i, rr2, c2) && row_cell(
                x0,
                y0,
                m,
                c,
            ) == #[trigger] row_cell(x0, y0, rr2, c2);
        lemma_wrapped_rows_distinct(y0, rr2, m);
        lemma_cell_pos_row_distinct(x0, x0, (y0 + rr2) % 32, (y0 + m) % 32, c2, c);
        assert(false);
    }
}

/// Drawing a whole sprite, cell by cell: every cell a sprite pixel lands on
/// holds its old value XOR that pixel, every other cell is untouched, and a
/// collision is reported exactly when some lit sprite pixel met a lit cell.
proof fn lemma_draw_rows_char(fb: Seq<bool>, mem: Seq<u8>, i: int, x0: int, y0: int, nrows: nat)
    requires
        fb.len() == DISP_SIZE,
        0 <= x0 < 64,
        0 <= y0 < 32,
        nrows <= 16,
    ensures
        ({
            let r = spec_draw_rows(fb, mem, i, x0, y0, nrows);
            &&& r.0.len() == DISP_SIZE
            &&& forall|rr: int, c: int|
                0 <= rr < nrows && 0 <= c < 8 ==> r.0[#[trigger] row_cell(x0, y0, rr, c)] == (
                fb[row_cell(x0, y0, rr, c)] != sprite_pixel(mem, i, rr, c))
            &&& forall|p: int|
                0 <= p < DISP_SIZE && !row_touched(mem, i, x0, y0, nrows, p) ==> r.0[p] == fb[p]
            &&& (r.1 <==> row_hit(mem, i, x0, y0, nrows, fb))
        }),
    decreases nrows,
{
    if nrows > 0 {
        let m = nrows - 1;
        let prevn = (nrows - 1) as nat;
        lemma_draw_rows_char(fb, mem, i, x0, y0, prevn);
        let prev = spec_draw_rows(fb, mem, i, x0, y0, prevn);
        let yr = (y0 + m) % 32;
        lemma_draw_cols_char(prev.0, mem[i + m], x0, yr, 8);
        let cols = spec_draw_cols(prev.0, mem[i + m], x0, yr, 8);
        let r = spec_draw_rows(fb, mem, i, x0, y0, nrows);
        assert forall|rr: int, c: int| 0 <= rr < nrows && 0 <= c < 8 implies r.0[#[trigger]
        row_cell(x0, y0, rr, c)] == (fb[row_cell(x0, y0, rr, c)] != sprite_pixel(
            mem,
            i,
            rr,
            c,
        )) by {
            lemma_cell_pos_range(x0, (y0 + rr) % 32, c);
            if rr < m {
                assert(!col_touched(mem[i + m], x0, yr, 8, row_cell(x0, y0, rr, c))) by {
                    if col_touched(mem[i + m], x0, yr, 8, row_cell(x0, y0, rr, c)) {
                        let c2 = choose|c2: int|
                            0 <= c2 < 8 && sprite_bit(mem[i + m], c2) && row_cell(x0, y0, rr, c)
                                == #[trigger] cell_pos(x0, yr, c2);
                        lemma_wrapped_rows_distinct(y0, rr, m);
                        lemma_cell_pos_row_distinct(x0, x0, (y0 + rr) % 32, yr, c, c2);
                    }
                }
            } else {
                lemma_earlier_rows_miss(mem, i, x0, y0, prevn, m, c);
                assert(prev.0[row_cell(x0, y0, m, c)] == fb[row_cell(x0, y0, m, c)]);
                assert(cols.0[cell_pos(x0, yr, c)] == (prev.0[cell_pos(x0, yr, c)] != sprite_bit(
                    mem[i + m],
                    c,
                )));
            }
        }
        assert forall|p: int|
            0 <= p < DISP_SIZE && !row_touched(mem, i, x0, y0, nrows, p) implies r.0[p] == fb[p] by {
            assert(!row_touched(mem, i, x0, y0, prevn, p)) by {
                if row_touched(mem, i, x0, y0, prevn, p) {
                    let (rr2, c2) = choose|rr2: int, c2: int|
                        0 <= rr2 < prevn && 0 <= c2 < 8 && sprite_pixel(mem, i, rr2, c2) && p
                            == #[trigger] row_cell(x0, y0, rr2, c2);
                    assert(row_touched(mem, i, x0, y0, nrows, p));
                }
            }
            assert(!col_touched(mem[i + m], x0, yr, 8, p)) by {
                if col_touched(mem[i + m], x0, yr, 8, p) {
                    let c2 = choose|c2: int|
                        0 <= c2 < 8 && sprite_bit(mem[i + m], c2) && p == #[trigger] cell_pos(
                            x0,
                            yr,
                            c2,
                        );
                    assert(p == row_cell(x0, y0, m, c2));
                    assert(sprite_pixel(mem, i, m, c2));
                    assert(row_touched(mem, i, x0, y0, nrows, p));
                }
            }
        }
        assert(r.1 <==> row_hit(mem, i, x0, y0, nrows, fb)) by {
            if r.1 {
                if prev.1 {
                    let (rr2, c2) = choose|rr2: int, c2: int|
                        0 <= rr2 < prevn && 0 <= c2 < 8 && sprite_pixel(mem, i, rr2, c2)
                            && fb[#[trigger] row_cell(x0, y0, rr2, c2)];
                    assert(row_hit(mem, i, x0, y0, nrows, fb));
                } else {
                    let c2 = choose|c2: int|
                        0 <= c2 < 8 && sprite_bit(mem[i + m], c2) && prev.0[#[trigger] cell_pos(
                            x0,
                            yr,
                            c2,
                        )];
                    lemma_earlier_rows_miss(mem, i, x0, y0, prevn, m, c2);
                    lemma_cell_pos_range(x0, yr, c2);
                    assert(fb[row_cell(x0, y0, m, c2)]);
                    assert(sprite_pixel(mem, i, m, c2));
                    assert(row_hit(mem, i, x0, y0, nrows, fb));
                }
            }
            if row_hit(mem, i, x0, y0, nrows, fb) {
                let (rr2, c2) = choose|rr2: int, c2: int|
                    0 <= rr2 < nrows && 0 <= c2 < 8 && sprite_pixel(mem, i, rr2, c2)
                        && fb[#[trigger] row_cell(x0, y0, rr2, c2)];
                if rr2 < m {
                    assert(row_hit(mem, i, x0, y0, prevn, fb));
                    assert(prev.1);
                } else {
                    lemma_earlier_rows_miss(mem, i, x0, y0, prevn, m, c2);
                    lemma_cell_pos_range(x0, yr, c2);
                    assert(prev.0[cell_pos(x0, yr, c2)]);
                    assert(col_hit(mem[i + m], x0, yr, 8, prev.0));
                    assert(cols.1);
                }
            }
        }
    }
}

/// Drawing the same sprite twice at the same coordinates: the second draw
/// undoes the first, restoring the framebuffer exactly, because each sprite
/// pixel XORs the same cell twice. Starting from an all-clear framebuffer,
/// the first draw reports no collision and the second reports one exactly
/// when the sprite has any lit pixel at all. Stated for coordinate registers
/// other than VF, which the first draw overwrites with its collision flag.
pub proof fn lemma_draw_twice_restores(pre: MachineView, x: u8, y: u8, n: u8)
    requires
        pre.wf(),
        x < 15,
        y < 15,
        n < 16,
        pre.index + n <= MEM_SIZE,
    ensures
        ({
            let first = spec_draw(pre, x, y, n);
            let second = spec_draw(first.0, x, y, n);
            &&& first.1 is None
            &&& second.1 is None
            &&& second.0.display == pre.display
            &&& ((forall|p: int| 0 <= p < DISP_SIZE ==> !pre.display[p]) ==> (first.0.v[15] == 0
                && (second.0.v[15] == 1 <==> !sprite_blank(pre.mem, pre.index as int, n as int))))
        }),
{
    let i = pre.index as int;
    let x0 = pre.v[x as int] % 64;
    let y0 = pre.v[y as int] % 32;
    let first = spec_draw(pre, x, y, n);
    lemma_draw_rows_char(pre.display, pre.mem, i, x0 as int, y0 as int, n as nat);
    let d1 = spec_draw_rows(pre.display, pre.mem, i, x0 as int, y0 as int, n as nat);
    assert(first.0.v[x as int] == pre.v[x as int]);
    assert(first.0.v[y as int] == pre.v[y as int]);
    let second = spec_draw(first.0, x, y, n);
    lemma_draw_rows_char(d1.0, pre.mem, i, x0 as int, y0 as int, n as nat);
    let d2 = spec_draw_rows(d1.0, pre.mem, i, x0 as int, y0 as int, n as nat);
    assert(second.0.display == d2.0);
    assert forall|p: int| 0 <= p < DISP_SIZE implies d2.0[p] == pre.display[p] by {
        if row_touched(pre.mem, i, x0 as int, y0 as int, n as nat, p) {
            let (rr, c) = choose|rr: int, c: int|
                0 <= rr < n as nat && 0 <= c < 8 && sprite_pixel(pre.mem, i, rr, c) && p
                    == #[trigger] row_cell(x0 as int, y0 as int, rr, c);
            assert(d1.0[p] == (pre.display[p] != sprite_pixel(pre.mem, i, rr, c)));
            assert(d2.0[p] == (d1.0[p] != sprite_pixel(pre.mem, i, rr, c)));
        }
    }
    assert(d2.0 =~= pre.display);
    if forall|p: int| 0 <= p < DISP_SIZE ==> !pre.display[p] {
        assert(!d1.1) by {
            if row_hit(pre.mem, i, x0 as int, y0 as int, n as nat, pre.display) {
                let (rr, c) = choose|rr: int, c: int|
                    0 <= rr < n as nat && 0 <= c < 8 && sprite_pixel(pre.mem, i, rr, c)
                        && pre.display[#[trigger] row_cell(x0 as int, y0 as int, rr, c)];
                lemma_cell_pos_range(x0 as int, (y0 + rr) % 32, c);
            }
        }
        assert(first.0.v[15] == 0);
        assert(d2.1 <==> !sprite_blank(pre.mem, i, n as int)) by {
            if d2.1 {
                let (rr, c) = choose|rr: int, c: int|
                    0 <= rr < n as nat && 0 <= c < 8 && sprite_pixel(pre.mem, i, rr, c)
                        && d1.0[#[trigger] row_cell(x0 as int, y0 as int, rr, c)];
                assert(!sprite_blank(pre.mem, i, n as int));
            }
            if !sprite_blank(pre.mem, i, n as int) {
                let (rr, c) = choose|rr: int, c: int|
                    0 <= rr < n as int && 0 <= c < 8 && #[trigger] sprite_pixel(pre.mem, i, rr, c);
                lemma_cell_pos_range(x0 as int, (y0 + rr) % 32, c);
                assert(d1.0[row_cell(x0 as int, y0 as int, rr, c)] == (pre.display[row_cell(
                    x0 as int,
                    y0 as int,
                    rr,
                    c,
                )] != sprite_pixel(pre.mem, i, rr, c)));
                assert(d1.0[row_cell(x0 as int, y0 as int, rr, c)]);
                assert(row_hit(pre.mem, i, x0 as int, y0 as int, n as nat, d1.0));
            }
        }
        assert(second.0.v[15] == (if d2.1 {
            1u8
        } else {
            0u8
        }));
    }
}

} // verus!
