//! The library's laws: properties that hold of whole instructions, of
//! instruction pairs, and of the timer driver, proved once and for all
//! over the same spec-level transitions that the machine's contracts use.

use vstd::prelude::*;
use crate::model::{EmuError, RunMode, VmView};
use crate::ops::{
    a12, advance, covers, draw_collision, draw_screen, imm_nn, imm_nnn, known_op, lemma_nibbles,
    nib1, nib2, nib3, nib4, sprite_bit_at, step_spec, timers_iter, word_at, wrap16, wrap8,
};

verus! {

/// Law: a store-immediate instruction (family 6XNN) succeeds, sets
/// register X to NN, and advances the program counter by exactly two from
/// its pre-fetch value; memory, framebuffer and mode are untouched.
pub proof fn lemma_store_immediate(s: VmView, rnd: u8)
    requires
        s.wf(),
        s.mode == RunMode::Running,
        nib1(word_at(s)) == 6,
    ensures
        ({
            let w = word_at(s);
            let out = step_spec(s, rnd);
            &&& out.res == Ok::<(), EmuError>(())
            &&& out.st.regs == s.regs.update(nib2(w), imm_nn(w))
            &&& out.st.pc == wrap16(s.pc as int + 2)
            &&& out.st.ram == s.ram
            &&& out.st.screen == s.screen
            &&& out.st.mode == RunMode::Running
        }),
{
    lemma_nibbles(word_at(s));
}

/// Law: add-with-carry (8XY4) succeeds, writes 1 into register 0xF
/// exactly when the pre-operation sum exceeds 255 and 0 otherwise, and
/// writes the wrapped sum into register X. The flag write comes second,
/// so the claim about X is for X other than 0xF (for X = 0xF the flag is
/// what remains).
pub proof fn lemma_add_with_carry(s: VmView, rnd: u8)
    requires
        s.wf(),
        s.mode == RunMode::Running,
        nib1(word_at(s)) == 8,
        nib4(word_at(s)) == 4,
    ensures
        ({
            let w = word_at(s);
            let x = nib2(w);
            let y = nib3(w);
            let sum = s.regs[x] as int + s.regs[y] as int;
            let out = step_spec(s, rnd);
            &&& out.res == Ok::<(), EmuError>(())
            &&& out.st.regs[0xF] == (if sum > 255 { 1u8 } else { 0u8 })
            &&& (x != 0xF ==> out.st.regs[x] == wrap8(sum))
            &&& out.st.pc == wrap16(s.pc as int + 2)
        }),
{
    lemma_nibbles(word_at(s));
}

/// Law: subtract (8XY5) succeeds, writes 1 into register 0xF exactly
/// when pre-operation register X is at least register Y (no borrow) and 0
/// otherwise, and writes the wrapped difference into register X (for X
/// other than 0xF, where the flag write is what remains).
pub proof fn lemma_sub_no_borrow(s: VmView, rnd: u8)
    requires
        s.wf(),
        s.mode == RunMode::Running,
        nib1(word_at(s)) == 8,
        nib4(word_at(s)) == 5,
    ensures
        ({
            let w = word_at(s);
            let x = nib2(w);
            let y = nib3(w);
            let out = step_spec(s, rnd);
            &&& out.res == Ok::<(), EmuError>(())
            &&& (out.st.regs[0xF] == 1u8 <==> s.regs[x] >= s.regs[y])
            &&& (out.st.regs[0xF] == 1u8 || out.st.regs[0xF] == 0u8)
            &&& (x != 0xF ==> out.st.regs[x] == wrap8(s.regs[x] as int - s.regs[y] as int))
            &&& out.st.pc == wrap16(s.pc as int + 2)
        }),
{
    lemma_nibbles(word_at(s));
}

/// Law: a call (2NNN) with room on the stack, whose target holds a
/// return (00EE), comes back: after the two steps the program counter is
/// the address immediately after the call and the stack pointer is
/// restored.
pub proof fn lemma_call_return(s: VmView, rnd1: u8, rnd2: u8)
    requires
        s.wf(),
        s.mode == RunMode::Running,
        nib1(word_at(s)) == 2,
        s.sp < 16,
        s.ram[a12(imm_nnn(word_at(s)) as int)] == 0x00,
        s.ram[a12(imm_nnn(word_at(s)) as int + 1)] == 0xEE,
    ensures
        ({
            let out1 = step_spec(s, rnd1);
            let out2 = step_spec(out1.st, rnd2);
            &&& out1.res == Ok::<(), EmuError>(())
            &&& out1.st.pc == imm_nnn(word_at(s))
            &&& out2.res == Ok::<(), EmuError>(())
            &&& out2.st.pc == wrap16(s.pc as int + 2)
            &&& out2.st.sp == s.sp
        }),
{
    lemma_nibbles(word_at(s));
    let s1 = step_spec(s, rnd1).st;
    assert(word_at(s1) == 0x00EE);
}

/// Law: clear-screen (00E0) succeeds and unsets every framebuffer cell,
/// whatever the framebuffer held before.
pub proof fn lemma_clear_screen(s: VmView, rnd: u8)
    requires
        s.wf(),
        s.mode == RunMode::Running,
        word_at(s) == 0x00E0,
    ensures
        ({
            let out = step_spec(s, rnd);
            &&& out.res == Ok::<(), EmuError>(())
            &&& out.st.screen.len() == 2048
            &&& forall|idx: int| 0 <= idx < 2048 ==> !out.st.screen[idx]
        }),
{
}

/// Law: drawing the same sprite twice at the same position restores the
/// framebuffer exactly (XOR is its own inverse), and the second draw
/// reports a collision precisely when the first draw set some previously
/// unset cell.
pub proof fn lemma_draw_twice(screen: Seq<bool>, ram: Seq<u8>, i: u16, vx: u8, vy: u8, n: int)
    requires
        screen.len() == 2048,
        0 <= n < 16,
    ensures
        draw_screen(draw_screen(screen, ram, i, vx, vy, n), ram, i, vx, vy, n) == screen,
        draw_collision(draw_screen(screen, ram, i, vx, vy, n), ram, i, vx, vy, n) <==> (exists|
            idx: int,
        |
            0 <= idx < 2048 && covers(vx, vy, n, idx) && sprite_bit_at(ram, i, vx, vy, idx)
                && !screen[idx]),
{
    let s1 = draw_screen(screen, ram, i, vx, vy, n);
    let s2 = draw_screen(s1, ram, i, vx, vy, n);
    assert(s2 =~= screen);
    if draw_collision(s1, ram, i, vx, vy, n) {
        let j = choose|j: int|
            0 <= j < 2048 && covers(vx, vy, n, j) && sprite_bit_at(ram, i, vx, vy, j) && s1[j];
        assert(covers(vx, vy, n, j) && sprite_bit_at(ram, i, vx, vy, j) && !screen[j]);
    }
    if exists|idx: int|
        0 <= idx < 2048 && covers(vx, vy, n, idx) && sprite_bit_at(ram, i, vx, vy, idx)
            && !screen[idx] {
        let j = choose|j: int|
            0 <= j < 2048 && covers(vx, vy, n, j) && sprite_bit_at(ram, i, vx, vy, j)
                && !screen[j];
        assert(s1[j]);
        assert(draw_collision(s1, ram, i, vx, vy, n));
    }
}

/// Law: timer cadence. After `n` timer ticks a timer that started at `d`
/// holds 0 when `n >= d` and `d - n` otherwise: it counts down by one per
/// tick and clamps at zero, never wrapping below.
pub proof fn lemma_timer_cadence(s: VmView, n: nat)
    ensures
        timers_iter(s, n).delay == (if n >= s.delay { 0u8 } else { (s.delay - n) as u8 }),
        timers_iter(s, n).sound == (if n >= s.sound { 0u8 } else { (s.sound - n) as u8 }),
    decreases n,
{
    if n > 0 {
        lemma_timer_cadence(s, (n - 1) as nat);
    }
}

/// Law: a word outside the instruction table is surfaced as an
/// unimplemented-opcode failure carrying that word, never silently
/// skipped; the only state change is the fetch advance.
pub proof fn lemma_unimplemented_surfaced(s: VmView, rnd: u8)
    requires
        s.wf(),
        s.mode == RunMode::Running,
        !known_op(word_at(s)),
    ensures
        step_spec(s, rnd).res == Err::<(), EmuError>(EmuError::UnimplementedOpcode(word_at(s))),
        step_spec(s, rnd).st == advance(s),
{
}

} // verus!
