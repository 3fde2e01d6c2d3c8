//! Specification of the instruction set: decoding of the nibble fields and
//! the meaning of every instruction family as a function from machine state
//! to machine state.

use vstd::prelude::*;
use vstd::arithmetic::div_mod::{
    lemma_fundamental_div_mod, lemma_fundamental_div_mod_converse,
    lemma_mod_division_less_than_divisor,
};
use crate::model::{EmuError, RunMode, StepOut, VmView};

verus! {

// ---------------------------------------------------------------------
// Decoding
// ---------------------------------------------------------------------

/// First (high) nibble of an instruction word: the family selector.
pub open spec fn nib1(w: u16) -> int {
    w as int / 0x1000
}

/// Second nibble: the register index X.
pub open spec fn nib2(w: u16) -> int {
    (w as int / 0x100) % 0x10
}

/// Third nibble: the register index Y.
pub open spec fn nib3(w: u16) -> int {
    (w as int / 0x10) % 0x10
}

/// Fourth (low) nibble: N.
pub open spec fn nib4(w: u16) -> int {
    w as int % 0x10
}

/// Low byte of an instruction word: NN.
pub open spec fn imm_nn(w: u16) -> u8 {
    (w as int % 0x100) as u8
}

/// Low 12 bits of an instruction word: NNN.
pub open spec fn imm_nnn(w: u16) -> u16 {
    (w as int % 0x1000) as u16
}

/// An instruction word is the weighted sum of its four nibbles.
pub proof fn lemma_nibbles(w: u16)
    by (bit_vector)
    ensures
        w == 0x1000 * (w / 0x1000) + 0x100 * ((w / 0x100) % 0x10) + 0x10 * ((w / 0x10) % 0x10) + (
        w % 0x10),
        w % 0x1000 == 0x100 * ((w / 0x100) % 0x10) + 0x10 * ((w / 0x10) % 0x10) + (w % 0x10),
        w % 0x100 == 0x10 * ((w / 0x10) % 0x10) + (w % 0x10),
        w / 0x1000 < 0x10,
{
}

// ---------------------------------------------------------------------
// Wrapping arithmetic and addressing
// ---------------------------------------------------------------------

/// 16-bit wrap of a sum below 2^17.
pub open spec fn wrap16(a: int) -> u16 {
    if a >= 0x10000 {
        (a - 0x10000) as u16
    } else {
        a as u16
    }
}

/// 8-bit wrap of a value in (-256, 512).
pub open spec fn wrap8(a: int) -> u8 {
    if a < 0 {
        (a + 256) as u8
    } else if a >= 256 {
        (a - 256) as u8
    } else {
        a as u8
    }
}

/// A memory address reduced to the 4096-byte addressable range.
pub open spec fn a12(a: int) -> int {
    a % 4096
}

/// The big-endian instruction word at the program counter.
pub open spec fn word_at(s: VmView) -> u16 {
    (s.ram[a12(s.pc as int)] as int * 0x100 + s.ram[a12(s.pc as int + 1)] as int) as u16
}

/// The state with the program counter moved to the next instruction slot.
/// Fetch performs this unconditionally; the skip instructions perform it a
/// second time.
pub open spec fn advance(s: VmView) -> VmView {
    VmView { pc: wrap16(s.pc as int + 2), ..s }
}

// ---------------------------------------------------------------------
// Arithmetic family (8XY_)
// ---------------------------------------------------------------------

/// Value written to register X by arithmetic op `op` on pre-operation
/// register values `vx` and `vy`.
pub open spec fn alu_result(vx: u8, vy: u8, op: int) -> u8 {
    if op == 0 {
        vy
    } else if op == 1 {
        vx | vy
    } else if op == 2 {
        vx & vy
    } else if op == 3 {
        vx ^ vy
    } else if op == 4 {
        wrap8(vx as int + vy as int)
    } else if op == 5 {
        wrap8(vx as int - vy as int)
    } else if op == 6 {
        (vx as int / 2) as u8
    } else if op == 7 {
        wrap8(vy as int - vx as int)
    } else {
        ((vx as int % 128) * 2) as u8
    }
}

/// The flag that arithmetic op `op` writes into register 0xF, if any:
/// carry for add, no-borrow for the subtractions, the shifted-out bit for
/// the shifts.
pub open spec fn alu_flag(vx: u8, vy: u8, op: int) -> Option<u8> {
    if op == 4 {
        Some(if vx as int + vy as int > 255 { 1u8 } else { 0u8 })
    } else if op == 5 {
        Some(if vx >= vy { 1u8 } else { 0u8 })
    } else if op == 6 {
        Some((vx as int % 2) as u8)
    } else if op == 7 {
        Some(if vy >= vx { 1u8 } else { 0u8 })
    } else if op == 0xE {
        Some((vx as int / 128) as u8)
    } else {
        None
    }
}

/// The register file after arithmetic op `op` of X and Y: first the result
/// into X, then the flag (when the op has one) into 0xF, in that order, so
/// the flag write wins when X is 0xF.
pub open spec fn alu_regs(regs: Seq<u8>, x: int, y: int, op: int) -> Seq<u8> {
    let r1 = regs.update(x, alu_result(regs[x], regs[y], op));
    match alu_flag(regs[x], regs[y], op) {
        Some(f) => r1.update(0xF, f),
        None => r1,
    }
}

// ---------------------------------------------------------------------
// Draw (DXYN)
// ---------------------------------------------------------------------

/// Origin column of a sprite: the X register value wrapped to the screen.
pub open spec fn sx(vx: u8) -> int {
    vx as int % 64
}

/// Origin row of a sprite: the Y register value wrapped to the screen.
pub open spec fn sy(vy: u8) -> int {
    vy as int % 32
}

/// Screen column hit by bit `b` of a sprite row, with wraparound.
pub open spec fn px_of(vx: u8, b: int) -> int {
    if sx(vx) + b < 64 {
        sx(vx) + b
    } else {
        sx(vx) + b - 64
    }
}

/// Screen row hit by sprite row `r`, with wraparound.
pub open spec fn py_of(vy: u8, r: int) -> int {
    if sy(vy) + r < 32 {
        sy(vy) + r
    } else {
        sy(vy) + r - 32
    }
}

/// Which bit position of a sprite row lands on screen column `px`
/// (inverse of `px_of` over one wrap of the screen width).
pub open spec fn b_inv(vx: u8, px: int) -> int {
    if px >= sx(vx) {
        px - sx(vx)
    } else {
        px + 64 - sx(vx)
    }
}

/// Which sprite row lands on screen row `py` (inverse of `py_of`).
pub open spec fn r_inv(vy: u8, py: int) -> int {
    if py >= sy(vy) {
        py - sy(vy)
    } else {
        py + 32 - sy(vy)
    }
}

/// Byte of the sprite for row `r`, read from memory at the index register.
pub open spec fn sprite_row(ram: Seq<u8>, i: u16, r: int) -> u8 {
    ram[a12(i as int + r)]
}

/// Bit `b` of a sprite byte, bit 0 being the leftmost (most significant).
pub open spec fn row_bit(byte: u8, b: int) -> bool {
    (byte >> ((7 - b) as u8)) & 1 == 1
}

/// Does the processed prefix of a sprite (rows before `r`, plus bits
/// before `b` of row `r`) cover framebuffer cell `idx`? Each cell is
/// covered by at most one (row, bit) pair, since a sprite is at most 16
/// rows of 8 bits.
pub open spec fn covered_before(vx: u8, vy: u8, r: int, b: int, idx: int) -> bool {
    let ri = r_inv(vy, idx / 64);
    let bi = b_inv(vx, idx % 64);
    bi < 8 && (ri < r || (ri == r && bi < b))
}

/// Does an `n`-row sprite cover framebuffer cell `idx` at all?
pub open spec fn covers(vx: u8, vy: u8, n: int, idx: int) -> bool {
    covered_before(vx, vy, n, 0, idx)
}

/// The sprite bit that lands on framebuffer cell `idx`.
pub open spec fn sprite_bit_at(ram: Seq<u8>, i: u16, vx: u8, vy: u8, idx: int) -> bool {
    row_bit(sprite_row(ram, i, r_inv(vy, idx / 64)), b_inv(vx, idx % 64))
}

/// The framebuffer after the prefix of a sprite has been XORed in: a
/// covered cell is flipped where its sprite bit is set, every other cell
/// keeps its value.
pub open spec fn draw_partial(
    screen: Seq<bool>,
    ram: Seq<u8>,
    i: u16,
    vx: u8,
    vy: u8,
    r: int,
    b: int,
) -> Seq<bool> {
    Seq::new(
        2048,
        |idx: int|
            if covered_before(vx, vy, r, b, idx) {
                screen[idx] != sprite_bit_at(ram, i, vx, vy, idx)
            } else {
                screen[idx]
            },
    )
}

/// The framebuffer after a whole `n`-row sprite has been XORed in.
pub open spec fn draw_screen(
    screen: Seq<bool>,
    ram: Seq<u8>,
    i: u16,
    vx: u8,
    vy: u8,
    n: int,
) -> Seq<bool> {
    draw_partial(screen, ram, i, vx, vy, n, 0)
}

/// Did the processed prefix of the sprite flip any set cell to unset?
pub open spec fn collide_before(
    screen: Seq<bool>,
    ram: Seq<u8>,
    i: u16,
    vx: u8,
    vy: u8,
    r: int,
    b: int,
) -> bool {
    exists|idx: int|
        0 <= idx < 2048 && covered_before(vx, vy, r, b, idx) && sprite_bit_at(ram, i, vx, vy, idx)
            && screen[idx]
}

/// Did drawing a whole `n`-row sprite flip any set cell to unset? This is
/// what the draw instruction reports in register 0xF.
pub open spec fn draw_collision(
    screen: Seq<bool>,
    ram: Seq<u8>,
    i: u16,
    vx: u8,
    vy: u8,
    n: int,
) -> bool {
    collide_before(screen, ram, i, vx, vy, n, 0)
}

/// Decomposition of a framebuffer index into its row and column.
proof fn lemma_idx_decompose(idx: int)
    requires
        0 <= idx < 2048,
    ensures
        idx == 64 * (idx / 64) + idx % 64,
        0 <= idx % 64 < 64,
        0 <= idx / 64 < 32,
{
    lemma_fundamental_div_mod(idx, 64);
    lemma_mod_division_less_than_divisor(idx, 64);
}

/// The framebuffer cell hit by sprite position (row `r`, bit `b`): its
/// index is in range, splits back into the same row and column, and the
/// coordinate inverses recover `r` and `b`.
proof fn lemma_hit_cell(vx: u8, vy: u8, r: int, b: int)
    requires
        0 <= r < 16,
        0 <= b < 8,
    ensures
        ({
            let idx = py_of(vy, r) * 64 + px_of(vx, b);
            &&& 0 <= idx < 2048
            &&& idx / 64 == py_of(vy, r)
            &&& idx % 64 == px_of(vx, b)
            &&& r_inv(vy, py_of(vy, r)) == r
            &&& b_inv(vx, px_of(vx, b)) == b
        }),
{
    lemma_mod_division_less_than_divisor(vx as int, 64);
    lemma_mod_division_less_than_divisor(vy as int, 32);
    let py = py_of(vy, r);
    let px = px_of(vx, b);
    lemma_fundamental_div_mod_converse(py * 64 + px, 64, py, px);
}

/// No framebuffer cell other than the one of `lemma_hit_cell` has the
/// coordinate inverses pointing at sprite position (r, b): a sprite, being
/// at most 16 rows of 8 bits on a 64x32 screen, hits each cell at most
/// once.
proof fn lemma_cover_unique(vx: u8, vy: u8, r: int, b: int, idx: int)
    requires
        0 <= r < 16,
        0 <= b < 8,
        0 <= idx < 2048,
        r_inv(vy, idx / 64) == r,
        b_inv(vx, idx % 64) == b,
    ensures
        idx == py_of(vy, r) * 64 + px_of(vx, b),
{
    lemma_idx_decompose(idx);
    lemma_mod_division_less_than_divisor(vx as int, 64);
    lemma_mod_division_less_than_divisor(vy as int, 32);
}

/// Before any of a sprite is processed, the framebuffer is untouched and
/// no collision has happened.
pub proof fn lemma_draw_init(screen: Seq<bool>, ram: Seq<u8>, i: u16, vx: u8, vy: u8)
    requires
        screen.len() == 2048,
    ensures
        draw_partial(screen, ram, i, vx, vy, 0, 0) == screen,
        !collide_before(screen, ram, i, vx, vy, 0, 0),
{
    assert forall|idx: int| 0 <= idx < 2048 implies !covered_before(vx, vy, 0, 0, idx) by {
        lemma_idx_decompose(idx);
        lemma_mod_division_less_than_divisor(vx as int, 64);
        lemma_mod_division_less_than_divisor(vy as int, 32);
    };
    assert(draw_partial(screen, ram, i, vx, vy, 0, 0) =~= screen);
}

/// One bit of sprite processing: the cell hit by (r, b) is not yet
/// covered, carries the original framebuffer value, and XORing this one
/// bit in extends the processed prefix by one; the collision flag so far
/// grows by exactly whether this bit lands set on a set cell.
pub proof fn lemma_draw_step(screen: Seq<bool>, ram: Seq<u8>, i: u16, vx: u8, vy: u8, r: int, b: int)
    requires
        0 <= r < 16,
        0 <= b < 8,
        screen.len() == 2048,
    ensures
        ({
            let idx0 = py_of(vy, r) * 64 + px_of(vx, b);
            let bit = row_bit(sprite_row(ram, i, r), b);
            let cur = draw_partial(screen, ram, i, vx, vy, r, b);
            &&& 0 <= idx0 < 2048
            &&& !covered_before(vx, vy, r, b, idx0)
            &&& sprite_bit_at(ram, i, vx, vy, idx0) == bit
            &&& cur[idx0] == screen[idx0]
            &&& draw_partial(screen, ram, i, vx, vy, r, b + 1) == (if bit {
                cur.update(idx0, !cur[idx0])
            } else {
                cur
            })
            &&& (collide_before(screen, ram, i, vx, vy, r, b + 1) <==> (collide_before(
                screen,
                ram,
                i,
                vx,
                vy,
                r,
                b,
            ) || (bit && screen[idx0])))
        }),
{
    lemma_hit_cell(vx, vy, r, b);
    let idx0 = py_of(vy, r) * 64 + px_of(vx, b);
    let bit = row_bit(sprite_row(ram, i, r), b);
    let cur = draw_partial(screen, ram, i, vx, vy, r, b);
    let nxt = draw_partial(screen, ram, i, vx, vy, r, b + 1);
    let tgt = if bit {
        cur.update(idx0, !cur[idx0])
    } else {
        cur
    };
    assert forall|idx: int| 0 <= idx < 2048 implies nxt[idx] == tgt[idx] by {
        if idx != idx0 {
            if r_inv(vy, idx / 64) == r && b_inv(vx, idx % 64) == b {
                lemma_cover_unique(vx, vy, r, b, idx);
            }
            assert(covered_before(vx, vy, r, b + 1, idx) == covered_before(vx, vy, r, b, idx));
        }
    };
    assert(nxt =~= tgt);
    if collide_before(screen, ram, i, vx, vy, r, b + 1) {
        let j = choose|j: int|
            0 <= j < 2048 && covered_before(vx, vy, r, b + 1, j) && sprite_bit_at(
                ram,
                i,
                vx,
                vy,
                j,
            ) && screen[j];
        if j != idx0 {
            if r_inv(vy, j / 64) == r && b_inv(vx, j % 64) == b {
                lemma_cover_unique(vx, vy, r, b, j);
            }
            assert(covered_before(vx, vy, r, b, j));
            assert(collide_before(screen, ram, i, vx, vy, r, b));
        }
    }
    if collide_before(screen, ram, i, vx, vy, r, b) {
        let j = choose|j: int|
            0 <= j < 2048 && covered_before(vx, vy, r, b, j) && sprite_bit_at(ram, i, vx, vy, j)
                && screen[j];
        assert(covered_before(vx, vy, r, b + 1, j));
        assert(collide_before(screen, ram, i, vx, vy, r, b + 1));
    }
    if bit && screen[idx0] {
        assert(covered_before(vx, vy, r, b + 1, idx0));
        assert(collide_before(screen, ram, i, vx, vy, r, b + 1));
    }
}

/// Finishing the bits of row `r` is the same as standing at the start of
/// row `r + 1`.
pub proof fn lemma_draw_row_roll(screen: Seq<bool>, ram: Seq<u8>, i: u16, vx: u8, vy: u8, r: int)
    requires
        screen.len() == 2048,
    ensures
        draw_partial(screen, ram, i, vx, vy, r, 8) == draw_partial(screen, ram, i, vx, vy, r + 1, 0),
        collide_before(screen, ram, i, vx, vy, r, 8) == collide_before(
            screen,
            ram,
            i,
            vx,
            vy,
            r + 1,
            0,
        ),
{
    assert(draw_partial(screen, ram, i, vx, vy, r, 8) =~= draw_partial(
        screen,
        ram,
        i,
        vx,
        vy,
        r + 1,
        0,
    ));
    if collide_before(screen, ram, i, vx, vy, r, 8) {
        let j = choose|j: int|
            0 <= j < 2048 && covered_before(vx, vy, r, 8, j) && sprite_bit_at(ram, i, vx, vy, j)
                && screen[j];
        assert(covered_before(vx, vy, r + 1, 0, j));
        assert(collide_before(screen, ram, i, vx, vy, r + 1, 0));
    }
    if collide_before(screen, ram, i, vx, vy, r + 1, 0) {
        let j = choose|j: int|
            0 <= j < 2048 && covered_before(vx, vy, r + 1, 0, j) && sprite_bit_at(
                ram,
                i,
                vx,
                vy,
                j,
            ) && screen[j];
        assert(covered_before(vx, vy, r, 8, j));
        assert(collide_before(screen, ram, i, vx, vy, r, 8));
    }
}

// ---------------------------------------------------------------------
// Block store/load and BCD
// ---------------------------------------------------------------------

/// Memory after registers 0 .. k-1 have been stored starting at the index
/// register, one byte per register, addresses reduced to the addressable
/// range.
pub open spec fn store_block(ram: Seq<u8>, regs: Seq<u8>, i: u16, k: nat) -> Seq<u8>
    decreases k,
{
    if k == 0 {
        ram
    } else {
        store_block(ram, regs, i, (k - 1) as nat).update(a12(i as int + k - 1), regs[k - 1])
    }
}

/// Registers after memory starting at the index register has been loaded
/// into registers 0 .. k-1.
pub open spec fn load_block(regs: Seq<u8>, ram: Seq<u8>, i: u16, k: nat) -> Seq<u8>
    decreases k,
{
    if k == 0 {
        regs
    } else {
        load_block(regs, ram, i, (k - 1) as nat).update(k - 1, ram[a12(i as int + k - 1)])
    }
}

/// Memory after the three decimal digits of `v` (hundreds, tens, ones)
/// have been stored at the index register.
pub open spec fn bcd_ram(ram: Seq<u8>, i: u16, v: u8) -> Seq<u8> {
    ram.update(a12(i as int), (v as int / 100) as u8).update(
        a12(i as int + 1),
        ((v as int / 10) % 10) as u8,
    ).update(a12(i as int + 2), (v as int % 10) as u8)
}

/// Memory after a ROM has been copied in verbatim starting at the load
/// address 0x200.
pub open spec fn loaded_ram(ram: Seq<u8>, rom: Seq<u8>) -> Seq<u8> {
    Seq::new(
        4096,
        |a: int|
            if 0x200 <= a < 0x200 + rom.len() {
                rom[a - 0x200]
            } else {
                ram[a]
            },
    )
}

// ---------------------------------------------------------------------
// Keypad scan
// ---------------------------------------------------------------------

/// The lowest pressed key index at or above `k`, if any.
pub open spec fn first_pressed_from(keys: Seq<bool>, k: int) -> Option<u8>
    decreases 16 - k,
{
    if k < 0 || k >= 16 {
        None
    } else if keys[k] {
        Some(k as u8)
    } else {
        first_pressed_from(keys, k + 1)
    }
}

/// The lowest pressed key index, if any key is pressed.
pub open spec fn first_pressed(keys: Seq<bool>) -> Option<u8> {
    first_pressed_from(keys, 0)
}

// ---------------------------------------------------------------------
// Dispatch
// ---------------------------------------------------------------------

/// A successful step outcome.
pub open spec fn ok(s: VmView) -> StepOut {
    StepOut { st: s, res: Ok(()) }
}

/// A failed step outcome.
pub open spec fn err(s: VmView, e: EmuError) -> StepOut {
    StepOut { st: s, res: Err(e) }
}

/// The framebuffer with every cell unset.
pub open spec fn all_unset() -> Seq<bool> {
    Seq::new(2048, |idx: int| false)
}

/// Does the word belong to the FX__ family's defined sub-opcodes?
pub open spec fn fx_known(w: u16) -> bool {
    ||| (nib3(w) == 0 && nib4(w) == 7)
    ||| (nib3(w) == 0 && nib4(w) == 0xA)
    ||| (nib3(w) == 1 && nib4(w) == 5)
    ||| (nib3(w) == 1 && nib4(w) == 8)
    ||| (nib3(w) == 1 && nib4(w) == 0xE)
    ||| (nib3(w) == 2 && nib4(w) == 9)
    ||| (nib3(w) == 3 && nib4(w) == 3)
    ||| (nib3(w) == 5 && nib4(w) == 5)
    ||| (nib3(w) == 6 && nib4(w) == 5)
}

/// Does the word match any defined instruction family? A step on a word
/// outside this set reports it as unimplemented.
pub open spec fn known_op(w: u16) -> bool {
    ||| w == 0x0000
    ||| w == 0x00E0
    ||| w == 0x00EE
    ||| nib1(w) == 1
    ||| nib1(w) == 2
    ||| nib1(w) == 3
    ||| nib1(w) == 4
    ||| (nib1(w) == 5 && nib4(w) == 0)
    ||| nib1(w) == 6
    ||| nib1(w) == 7
    ||| (nib1(w) == 8 && (nib4(w) <= 7 || nib4(w) == 0xE))
    ||| (nib1(w) == 9 && nib4(w) == 0)
    ||| nib1(w) == 0xA
    ||| nib1(w) == 0xB
    ||| nib1(w) == 0xC
    ||| nib1(w) == 0xD
    ||| (nib1(w) == 0xE && nib3(w) == 9 && nib4(w) == 0xE)
    ||| (nib1(w) == 0xE && nib3(w) == 0xA && nib4(w) == 1)
    ||| (nib1(w) == 0xF && fx_known(w))
}

/// The meaning of executing word `w` from the post-fetch state `s` (the
/// program counter already moved past the word). `rnd` is the byte the
/// randomness source produced, used only by the CXNN family. The state of
/// a failed outcome is `s` itself: a failure mutates nothing beyond the
/// fetch advance. Memory addresses are reduced to the 4096-byte
/// addressable range and the pad index of the key-skip instructions to
/// the 16-key pad, so no register value can read out of bounds.
pub open spec fn exec_spec(s: VmView, w: u16, rnd: u8) -> StepOut {
    let x = nib2(w);
    let y = nib3(w);
    let n = nib4(w);
    let nn = imm_nn(w);
    let nnn = imm_nnn(w);
    if w == 0x0000 {
        ok(s)
    } else if w == 0x00E0 {
        ok(VmView { screen: all_unset(), ..s })
    } else if w == 0x00EE {
        if s.sp == 0 {
            err(s, EmuError::StackUnderflow)
        } else {
            ok(VmView { pc: s.stack[s.sp as int - 1], sp: (s.sp - 1) as u16, ..s })
        }
    } else if nib1(w) == 1 {
        ok(VmView { pc: nnn, ..s })
    } else if nib1(w) == 2 {
        if s.sp == 16 {
            err(s, EmuError::StackOverflow)
        } else {
            ok(
                VmView {
                    stack: s.stack.update(s.sp as int, s.pc),
                    sp: (s.sp + 1) as u16,
                    pc: nnn,
                    ..s
                },
            )
        }
    } else if nib1(w) == 3 {
        ok(if s.regs[x] == nn { advance(s) } else { s })
    } else if nib1(w) == 4 {
        ok(if s.regs[x] != nn { advance(s) } else { s })
    } else if nib1(w) == 5 && nib4(w) == 0 {
        ok(if s.regs[x] == s.regs[y] { advance(s) } else { s })
    } else if nib1(w) == 6 {
        ok(VmView { regs: s.regs.update(x, nn), ..s })
    } else if nib1(w) == 7 {
        ok(VmView { regs: s.regs.update(x, wrap8(s.regs[x] as int + nn as int)), ..s })
    } else if nib1(w) == 8 && (n <= 7 || n == 0xE) {
        ok(VmView { regs: alu_regs(s.regs, x, y, n), ..s })
    } else if nib1(w) == 9 && nib4(w) == 0 {
        ok(if s.regs[x] != s.regs[y] { advance(s) } else { s })
    } else if nib1(w) == 0xA {
        ok(VmView { ireg: nnn, ..s })
    } else if nib1(w) == 0xB {
        ok(VmView { pc: (nnn as int + s.regs[0] as int) as u16, ..s })
    } else if nib1(w) == 0xC {
        ok(VmView { regs: s.regs.update(x, rnd & nn), ..s })
    } else if nib1(w) == 0xD {
        let coll = draw_collision(s.screen, s.ram, s.ireg, s.regs[x], s.regs[y], n);
        ok(
            VmView {
                screen: draw_screen(s.screen, s.ram, s.ireg, s.regs[x], s.regs[y], n),
                regs: s.regs.update(0xF, if coll { 1u8 } else { 0u8 }),
                ..s
            },
        )
    } else if nib1(w) == 0xE && nib3(w) == 9 && nib4(w) == 0xE {
        ok(if s.keys[s.regs[x] as int % 16] { advance(s) } else { s })
    } else if nib1(w) == 0xE && nib3(w) == 0xA && nib4(w) == 1 {
        ok(if !s.keys[s.regs[x] as int % 16] { advance(s) } else { s })
    } else if nib1(w) == 0xF && nib3(w) == 0 && nib4(w) == 7 {
        ok(VmView { regs: s.regs.update(x, s.delay), ..s })
    } else if nib1(w) == 0xF && nib3(w) == 0 && nib4(w) == 0xA {
        ok(VmView { mode: RunMode::WaitingForKey(x as u8), ..s })
    } else if nib1(w) == 0xF && nib3(w) == 1 && nib4(w) == 5 {
        ok(VmView { delay: s.regs[x], ..s })
    } else if nib1(w) == 0xF && nib3(w) == 1 && nib4(w) == 8 {
        ok(VmView { sound: s.regs[x], ..s })
    } else if nib1(w) == 0xF && nib3(w) == 1 && nib4(w) == 0xE {
        ok(VmView { ireg: wrap16(s.ireg as int + s.regs[x] as int), ..s })
    } else if nib1(w) == 0xF && nib3(w) == 2 && nib4(w) == 9 {
        ok(VmView { ireg: (s.regs[x] as int * 5) as u16, ..s })
    } else if nib1(w) == 0xF && nib3(w) == 3 && nib4(w) == 3 {
        ok(VmView { ram: bcd_ram(s.ram, s.ireg, s.regs[x]), ..s })
    } else if nib1(w) == 0xF && nib3(w) == 5 && nib4(w) == 5 {
        ok(VmView { ram: store_block(s.ram, s.regs, s.ireg, (x + 1) as nat), ..s })
    } else if nib1(w) == 0xF && nib3(w) == 6 && nib4(w) == 5 {
        ok(VmView { regs: load_block(s.regs, s.ram, s.ireg, (x + 1) as nat), ..s })
    } else {
        err(s, EmuError::UnimplementedOpcode(w))
    }
}

/// The meaning of one step: while waiting for a key, only poll the pad
/// (store the first pressed key and resume, or change nothing); otherwise
/// fetch the word at the program counter, advance it, and execute.
pub open spec fn step_spec(s: VmView, rnd: u8) -> StepOut {
    match s.mode {
        RunMode::WaitingForKey(x) => match first_pressed(s.keys) {
            Some(k) => ok(
                VmView { regs: s.regs.update(x as int, k), mode: RunMode::Running, ..s },
            ),
            None => ok(s),
        },
        RunMode::Running => exec_spec(advance(s), word_at(s), rnd),
    }
}

// ---------------------------------------------------------------------
// Timers
// ---------------------------------------------------------------------

/// The state after one timer tick: each timer counts down by one and
/// clamps at zero.
pub open spec fn timers_spec(s: VmView) -> VmView {
    VmView {
        delay: if s.delay > 0 { (s.delay - 1) as u8 } else { 0u8 },
        sound: if s.sound > 0 { (s.sound - 1) as u8 } else { 0u8 },
        ..s
    }
}

/// Is the audio cue emitted by this timer tick? It fires on the boundary
/// between "about to become silent" and "silent": exactly when the sound
/// timer is 1 before the decrement.
pub open spec fn audio_cue_spec(s: VmView) -> bool {
    s.sound == 1
}

/// The state after `n` timer ticks.
pub open spec fn timers_iter(s: VmView, n: nat) -> VmView
    decreases n,
{
    if n == 0 {
        s
    } else {
        timers_spec(timers_iter(s, (n - 1) as nat))
    }
}

} // verus!
