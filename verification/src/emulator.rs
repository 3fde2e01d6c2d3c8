//! The executable machine: the state block and every operation a caller
//! drives it with. Each operation's contract ties it to the spec-level
//! transition functions in `ops`.

use vstd::prelude::*;
use crate::model::{EmuError, RunMode, VmView};
use crate::model::StepOut;
use crate::ops::{
    advance, all_unset, alu_regs, audio_cue_spec, bcd_ram, collide_before, draw_collision,
    draw_partial, draw_screen, exec_spec, first_pressed, first_pressed_from, lemma_draw_init,
    lemma_draw_row_roll, lemma_draw_step, lemma_nibbles, load_block, loaded_ram, sprite_row,
    step_spec, store_block, sx, sy, timers_spec, word_at,
};
use crate::rng::random_byte;

verus! {

/// The 16 five-byte font glyphs for the digits 0 through F, preloaded at
/// the bottom of memory on construction and reset.
pub open spec fn font_seq() -> Seq<u8> {
    seq![
        0xF0u8, 0x90, 0x90, 0x90, 0xF0, // 0
        0x20, 0x60, 0x20, 0x20, 0x70, // 1
        0xF0, 0x10, 0xF0, 0x80, 0xF0, // 2
        0xF0, 0x10, 0xF0, 0x10, 0xF0, // 3
        0x90, 0x90, 0xF0, 0x10, 0x10, // 4
        0xF0, 0x80, 0xF0, 0x10, 0xF0, // 5
        0xF0, 0x80, 0xF0, 0x90, 0xF0, // 6
        0xF0, 0x10, 0x20, 0x40, 0x40, // 7
        0xF0, 0x90, 0xF0, 0x90, 0xF0, // 8
        0xF0, 0x90, 0xF0, 0x10, 0xF0, // 9
        0xF0, 0x90, 0xF0, 0x90, 0x90, // A
        0xE0, 0x90, 0xE0, 0x90, 0xE0, // B
        0xF0, 0x80, 0x80, 0x80, 0xF0, // C
        0xE0, 0x90, 0x90, 0x90, 0xE0, // D
        0xF0, 0x80, 0xF0, 0x80, 0xF0, // E
        0xF0, 0x80, 0xF0, 0x80, 0x80, // F
    ]
}

/// Memory in its initial shape: the font table in the first 80 bytes,
/// zero everywhere else.
pub open spec fn init_ram() -> Seq<u8> {
    Seq::new(4096, |a: int| if 0 <= a < 80 { font_seq()[a] } else { 0u8 })
}

/// The whole machine state as construction and reset leave it.
pub open spec fn initial_state() -> VmView {
    VmView {
        pc: 0x200,
        ram: init_ram(),
        screen: all_unset(),
        regs: Seq::new(16, |i: int| 0u8),
        ireg: 0,
        stack: Seq::new(16, |i: int| 0u16),
        sp: 0,
        delay: 0,
        sound: 0,
        keys: Seq::new(16, |i: int| false),
        mode: RunMode::Running,
    }
}

/// The virtual machine core. Exclusively owned by its caller; `tick`
/// drives one fetch-decode-execute cycle and `tick_timers` one timer
/// countdown step, each at whatever cadence the caller chooses.
pub struct Emulator {
    pub pc: u16,
    pub(crate) ram: Vec<u8>,
    pub(crate) screen: Vec<bool>,
    pub(crate) v_registers: Vec<u8>,
    pub(crate) i_register: u16,
    pub(crate) stack: Vec<u16>,
    pub(crate) stack_pointer: u16,
    pub(crate) delay_timer: u8,
    pub(crate) sound_timer: u8,
    pub(crate) keys: Vec<bool>,
    pub(crate) mode: RunMode,
}

impl View for Emulator {
    type V = VmView;

    closed spec fn view(&self) -> VmView {
        VmView {
            pc: self.pc,
            ram: self.ram@,
            screen: self.screen@,
            regs: self.v_registers@,
            ireg: self.i_register,
            stack: self.stack@,
            sp: self.stack_pointer,
            delay: self.delay_timer,
            sound: self.sound_timer,
            keys: self.keys@,
            mode: self.mode,
        }
    }
}

/// A vector of `n` copies of `v`.
pub(crate) fn filled<T: Copy>(n: usize, v: T) -> (r: Vec<T>)
    ensures
        r@.len() == n,
        forall|j: int| 0 <= j < n ==> r@[j] == v,
{
    let mut out: Vec<T> = Vec::new();
    let mut k: usize = 0;
    while k < n
        invariant
            k <= n,
            out@.len() == k,
            forall|j: int| 0 <= j < k ==> out@[j] == v,
        decreases n - k,
    {
        out.push(v);
        k = k + 1;
    }
    out
}

/// Appends five bytes.
fn push5(out: &mut Vec<u8>, a: u8, b: u8, c: u8, d: u8, e: u8)
    ensures
        final(out)@ == old(out)@ + seq![a, b, c, d, e],
{
    out.push(a);
    out.push(b);
    out.push(c);
    out.push(d);
    out.push(e);
    proof {
        assert(out@ =~= old(out)@ + seq![a, b, c, d, e]);
    }
}

/// Builds memory in its initial shape: font table first, zeros after.
fn build_ram() -> (r: Vec<u8>)
    ensures
        r@ == init_ram(),
{
    let mut ram: Vec<u8> = Vec::new();
    push5(&mut ram, 0xF0, 0x90, 0x90, 0x90, 0xF0);
    push5(&mut ram, 0x20, 0x60, 0x20, 0x20, 0x70);
    push5(&mut ram, 0xF0, 0x10, 0xF0, 0x80, 0xF0);
    push5(&mut ram, 0xF0, 0x10, 0xF0, 0x10, 0xF0);
    push5(&mut ram, 0x90, 0x90, 0xF0, 0x10, 0x10);
    push5(&mut ram, 0xF0, 0x80, 0xF0, 0x10, 0xF0);
    push5(&mut ram, 0xF0, 0x80, 0xF0, 0x90, 0xF0);
    push5(&mut ram, 0xF0, 0x10, 0x20, 0x40, 0x40);
    push5(&mut ram, 0xF0, 0x90, 0xF0, 0x90, 0xF0);
    push5(&mut ram, 0xF0, 0x90, 0xF0, 0x10, 0xF0);
    push5(&mut ram, 0xF0, 0x90, 0xF0, 0x90, 0x90);
    push5(&mut ram, 0xE0, 0x90, 0xE0, 0x90, 0xE0);
    push5(&mut ram, 0xF0, 0x80, 0x80, 0x80, 0xF0);
    push5(&mut ram, 0xE0, 0x90, 0x90, 0x90, 0xE0);
    push5(&mut ram, 0xF0, 0x80, 0xF0, 0x80, 0xF0);
    push5(&mut ram, 0xF0, 0x80, 0xF0, 0x80, 0x80);
    proof {
        assert(ram@ =~= font_seq());
    }
    let mut k: usize = ram.len();
    while k < 4096
        invariant
            80 <= k <= 4096,
            ram@.len() == k,
            forall|j: int| 0 <= j < k ==> ram@[j] == init_ram()[j],
        decreases 4096 - k,
    {
        ram.push(0);
        k = k + 1;
    }
    proof {
        assert(ram@ =~= init_ram());
    }
    ram
}

impl Emulator {
    /// Well-formedness of the state block; established by `new` and kept
    /// by every operation.
    pub open spec fn wf(self) -> bool {
        self@.wf()
    }

    /// A machine in the initial state: program counter at the load
    /// address, font preloaded, everything else zeroed or unset.
    pub fn new() -> (r: Emulator)
        ensures
            r.wf(),
            r@ == initial_state(),
    {
        let e = Emulator {
            pc: 0x200,
            ram: build_ram(),
            screen: filled(2048, false),
            v_registers: filled(16, 0u8),
            i_register: 0,
            stack: filled(16, 0u16),
            stack_pointer: 0,
            delay_timer: 0,
            sound_timer: 0,
            keys: filled(16, false),
            mode: RunMode::Running,
        };
        proof {
            assert(e@.screen =~= all_unset());
            assert(e@.regs =~= Seq::new(16, |i: int| 0u8));
            assert(e@.stack =~= Seq::new(16, |i: int| 0u16));
            assert(e@.keys =~= Seq::new(16, |i: int| false));
        }
        e
    }

    /// Restores the exact initial state, font reloaded, without changing
    /// the machine's identity.
    pub fn reset(&mut self)
        ensures
            final(self).wf(),
            final(self)@ == initial_state(),
    {
        *self = Emulator::new();
    }

    /// Copies a ROM into memory starting at the load address 0x200.
    /// Succeeds exactly when the ROM fits below the end of memory; a ROM
    /// that does not fit is rejected whole and the state is unchanged.
    pub fn load(&mut self, rom: &Vec<u8>) -> (r: Result<(), EmuError>)
        requires
            old(self).wf(),
        ensures
            final(self).wf(),
            0x200 + rom@.len() <= 4096 ==> r == Ok::<(), EmuError>(()) && final(self)@ == (VmView {
                ram: loaded_ram(old(self)@.ram, rom@),
                ..old(self)@
            }),
            0x200 + rom@.len() > 4096 ==> r == Err::<(), EmuError>(EmuError::RomTooLarge)
                && final(self)@ == old(self)@,
    {
        if rom.len() > 4096 - 0x200 {
            return Err(EmuError::RomTooLarge);
        }
        let mut k: usize = 0;
        while k < rom.len()
            invariant
                old(self).wf(),
                self@ == (VmView { ram: self@.ram, ..old(self)@ }),
                self@.ram.len() == 4096,
                k <= rom@.len(),
                0x200 + rom@.len() <= 4096,
                forall|j: int|
                    0 <= j < 4096 ==> self@.ram[j] == (if 0x200 <= j < 0x200 + k {
                        rom@[j - 0x200]
                    } else {
                        old(self)@.ram[j]
                    }),
            decreases rom@.len() - k,
        {
            self.ram[0x200 + k] = rom[k];
            k = k + 1;
        }
        proof {
            assert(self@.ram =~= loaded_ram(old(self)@.ram, rom@));
        }
        Ok(())
    }

    /// Reads the big-endian word at the program counter and advances the
    /// counter past it; the advance is the default next-instruction
    /// address, which control-flow instructions may then overwrite.
    pub(crate) fn fetch(&mut self) -> (w: u16)
        requires
            old(self).wf(),
        ensures
            final(self).wf(),
            w == word_at(old(self)@),
            final(self)@ == advance(old(self)@),
    {
        let hi = self.ram[(self.pc as usize) % 4096] as u16;
        let lo = self.ram[(self.pc as usize + 1) % 4096] as u16;
        let next: u32 = self.pc as u32 + 2;
        self.pc = if next >= 0x10000 {
            (next - 0x10000) as u16
        } else {
            next as u16
        };
        hi * 0x100 + lo
    }

    /// Pushes a return address onto the call stack.
    pub(crate) fn push(&mut self, val: u16)
        requires
            old(self).wf(),
            old(self)@.sp < 16,
        ensures
            final(self).wf(),
            final(self)@ == (VmView {
                stack: old(self)@.stack.update(old(self)@.sp as int, val),
                sp: (old(self)@.sp + 1) as u16,
                ..old(self)@
            }),
    {
        let sp = self.stack_pointer as usize;
        self.stack[sp] = val;
        self.stack_pointer = self.stack_pointer + 1;
    }

    /// Pops the most recent return address off the call stack.
    pub(crate) fn pop(&mut self) -> (r: u16)
        requires
            old(self).wf(),
            old(self)@.sp > 0,
        ensures
            final(self).wf(),
            r == old(self)@.stack[old(self)@.sp as int - 1],
            final(self)@ == (VmView { sp: (old(self)@.sp - 1) as u16, ..old(self)@ }),
    {
        self.stack_pointer = self.stack_pointer - 1;
        self.stack[self.stack_pointer as usize]
    }

    /// One wait-mode step: scan the pad for the lowest pressed key; when
    /// one is found, store its index into register `x` and resume.
    pub(crate) fn poll_key(&mut self, x: u8)
        requires
            old(self).wf(),
            old(self)@.mode == RunMode::WaitingForKey(x),
        ensures
            final(self).wf(),
            final(self)@ == (match first_pressed(old(self)@.keys) {
                Some(k) => VmView {
                    regs: old(self)@.regs.update(x as int, k),
                    mode: RunMode::Running,
                    ..old(self)@
                },
                None => old(self)@,
            }),
    {
        let mut k: usize = 0;
        while k < 16
            invariant
                old(self).wf(),
                old(self)@.mode == RunMode::WaitingForKey(x),
                x < 16,
                self@ == old(self)@,
                k <= 16,
                first_pressed(old(self)@.keys) == first_pressed_from(old(self)@.keys, k as int),
            decreases 16 - k,
        {
            if self.keys[k] {
                self.v_registers[x as usize] = k as u8;
                self.mode = RunMode::Running;
                return ;
            }
            k = k + 1;
        }
    }

    /// One timer countdown step: each timer counts down by one and clamps
    /// at zero. Returns whether the audio cue fires: exactly when the
    /// sound timer was 1 before this step, the boundary between "about to
    /// become silent" and "silent".
    pub fn tick_timers(&mut self) -> (cue: bool)
        requires
            old(self).wf(),
        ensures
            final(self).wf(),
            final(self)@ == timers_spec(old(self)@),
            cue == audio_cue_spec(old(self)@),
    {
        let cue = self.sound_timer == 1;
        if self.delay_timer > 0 {
            self.delay_timer = self.delay_timer - 1;
        }
        if self.sound_timer > 0 {
            self.sound_timer = self.sound_timer - 1;
        }
        cue
    }

    /// Marks a key as pressed. An index outside the 16-key pad is ignored.
    pub fn key_down(&mut self, idx: usize)
        requires
            old(self).wf(),
        ensures
            final(self).wf(),
            final(self)@ == (if idx < 16 {
                VmView { keys: old(self)@.keys.update(idx as int, true), ..old(self)@ }
            } else {
                old(self)@
            }),
    {
        if idx < 16 {
            self.keys[idx] = true;
        }
    }

    /// Marks a key as released. An index outside the 16-key pad is ignored.
    pub fn key_up(&mut self, idx: usize)
        requires
            old(self).wf(),
        ensures
            final(self).wf(),
            final(self)@ == (if idx < 16 {
                VmView { keys: old(self)@.keys.update(idx as int, false), ..old(self)@ }
            } else {
                old(self)@
            }),
    {
        if idx < 16 {
            self.keys[idx] = false;
        }
    }

    /// Read-only snapshot of the 64x32 framebuffer, row-major.
    pub fn framebuffer(&self) -> (r: &Vec<bool>)
        ensures
            r@ == self@.screen,
    {
        &self.screen
    }

    /// Current value of the delay timer.
    pub fn delay_timer(&self) -> (r: u8)
        ensures
            r == self@.delay,
    {
        self.delay_timer
    }

    /// Current value of the sound timer.
    pub fn sound_timer(&self) -> (r: u8)
        ensures
            r == self@.sound,
    {
        self.sound_timer
    }

    /// Current value of a general-purpose register.
    pub fn register(&self, idx: usize) -> (r: u8)
        requires
            self.wf(),
            idx < 16,
        ensures
            r == self@.regs[idx as int],
    {
        self.v_registers[idx]
    }

    /// Current value of the index register.
    pub fn index_register(&self) -> (r: u16)
        ensures
            r == self@.ireg,
    {
        self.i_register
    }

    /// The byte at a memory address.
    pub fn memory_at(&self, addr: usize) -> (r: u8)
        requires
            self.wf(),
            addr < 4096,
        ensures
            r == self@.ram[addr as int],
    {
        self.ram[addr]
    }

    /// Whether the machine is running or waiting for a key.
    pub fn run_mode(&self) -> (r: RunMode)
        ensures
            r == self@.mode,
    {
        self.mode
    }
}


// ---------------------------------------------------------------------
// Fetch-decode-execute
// ---------------------------------------------------------------------

impl Emulator {
    /// Moves the program counter one more instruction slot forward, as
    /// the skip instructions do when their condition is met.
    fn bump_pc(&mut self)
        requires
            old(self).wf(),
        ensures
            final(self).wf(),
            final(self)@ == advance(old(self)@),
    {
        let next: u32 = self.pc as u32 + 2;
        self.pc = if next >= 0x10000 {
            (next - 0x10000) as u16
        } else {
            next as u16
        };
    }

    /// Clears the framebuffer: every cell unset.
    fn op_clear(&mut self)
        requires
            old(self).wf(),
        ensures
            final(self).wf(),
            final(self)@ == (VmView { screen: all_unset(), ..old(self)@ }),
    {
        self.screen = filled(2048, false);
        proof {
            assert(self@.screen =~= all_unset());
        }
    }

    /// One arithmetic-family instruction: result into register X, then
    /// the flag (when the op has one) into register 0xF.
    fn op_alu(&mut self, x: usize, y: usize, op: u16)
        requires
            old(self).wf(),
            x < 16,
            y < 16,
            op <= 7 || op == 0xE,
        ensures
            final(self).wf(),
            final(self)@ == (VmView {
                regs: alu_regs(old(self)@.regs, x as int, y as int, op as int),
                ..old(self)@
            }),
    {
        let vx = self.v_registers[x];
        let vy = self.v_registers[y];
        if op == 0 {
            self.v_registers[x] = vy;
        } else if op == 1 {
            self.v_registers[x] = vx | vy;
        } else if op == 2 {
            self.v_registers[x] = vx & vy;
        } else if op == 3 {
            self.v_registers[x] = vx ^ vy;
        } else if op == 4 {
            let sum: u16 = vx as u16 + vy as u16;
            let vxn: u8 = if sum >= 256 {
                (sum - 256) as u8
            } else {
                sum as u8
            };
            let vf: u8 = if sum > 255 {
                1
            } else {
                0
            };
            self.v_registers[x] = vxn;
            self.v_registers[0xF] = vf;
        } else if op == 5 {
            let vxn: u8 = if vx >= vy {
                vx - vy
            } else {
                (256 + vx as u16 - vy as u16) as u8
            };
            let vf: u8 = if vx >= vy {
                1
            } else {
                0
            };
            self.v_registers[x] = vxn;
            self.v_registers[0xF] = vf;
        } else if op == 6 {
            let vf: u8 = vx % 2;
            self.v_registers[x] = vx / 2;
            self.v_registers[0xF] = vf;
        } else if op == 7 {
            let vxn: u8 = if vy >= vx {
                vy - vx
            } else {
                (256 + vy as u16 - vx as u16) as u8
            };
            let vf: u8 = if vy >= vx {
                1
            } else {
                0
            };
            self.v_registers[x] = vxn;
            self.v_registers[0xF] = vf;
        } else {
            let vf: u8 = vx / 128;
            self.v_registers[x] = (vx % 128) * 2;
            self.v_registers[0xF] = vf;
        }
    }

    /// Draws an `n`-row sprite read from memory at the index register at
    /// screen position (register X, register Y): each sprite bit is XORed
    /// onto the framebuffer with wraparound coordinates, and register 0xF
    /// reports whether any set cell was flipped to unset.
    fn op_draw(&mut self, x: usize, y: usize, n: u16)
        requires
            old(self).wf(),
            x < 16,
            y < 16,
            n < 16,
        ensures
            final(self).wf(),
            final(self)@ == (VmView {
                screen: draw_screen(
                    old(self)@.screen,
                    old(self)@.ram,
                    old(self)@.ireg,
                    old(self)@.regs[x as int],
                    old(self)@.regs[y as int],
                    n as int,
                ),
                regs: old(self)@.regs.update(
                    0xF,
                    if draw_collision(
                        old(self)@.screen,
                        old(self)@.ram,
                        old(self)@.ireg,
                        old(self)@.regs[x as int],
                        old(self)@.regs[y as int],
                        n as int,
                    ) {
                        1u8
                    } else {
                        0u8
                    },
                ),
                ..old(self)@
            }),
    {
        let vx = self.v_registers[x];
        let vy = self.v_registers[y];
        let ox: usize = (vx as usize) % 64;
        let oy: usize = (vy as usize) % 32;
        let mut collided = false;
        let mut r: usize = 0;
        proof {
            lemma_draw_init(old(self)@.screen, old(self)@.ram, old(self)@.ireg, vx, vy);
        }
        while r < n as usize
            invariant
                old(self).wf(),
                x < 16,
                y < 16,
                n < 16,
                r <= n,
                vx == old(self)@.regs[x as int],
                vy == old(self)@.regs[y as int],
                ox == sx(vx),
                oy == sy(vy),
                self@ == (VmView { screen: self@.screen, ..old(self)@ }),
                self@.screen == draw_partial(
                    old(self)@.screen,
                    old(self)@.ram,
                    old(self)@.ireg,
                    vx,
                    vy,
                    r as int,
                    0,
                ),
                collided == collide_before(
                    old(self)@.screen,
                    old(self)@.ram,
                    old(self)@.ireg,
                    vx,
                    vy,
                    r as int,
                    0,
                ),
            decreases n - r,
        {
            let byte = self.ram[(self.i_register as usize + r) % 4096];
            proof {
                assert(byte == sprite_row(old(self)@.ram, old(self)@.ireg, r as int));
            }
            let mut b: usize = 0;
            while b < 8
                invariant
                    old(self).wf(),
                    x < 16,
                    y < 16,
                    n < 16,
                    r < n,
                    b <= 8,
                    vx == old(self)@.regs[x as int],
                    vy == old(self)@.regs[y as int],
                    ox == sx(vx),
                    oy == sy(vy),
                    byte == sprite_row(old(self)@.ram, old(self)@.ireg, r as int),
                    self@ == (VmView { screen: self@.screen, ..old(self)@ }),
                    self@.screen == draw_partial(
                        old(self)@.screen,
                        old(self)@.ram,
                        old(self)@.ireg,
                        vx,
                        vy,
                        r as int,
                        b as int,
                    ),
                    collided == collide_before(
                        old(self)@.screen,
                        old(self)@.ram,
                        old(self)@.ireg,
                        vx,
                        vy,
                        r as int,
                        b as int,
                    ),
                decreases 8 - b,
            {
                proof {
                    lemma_draw_step(
                        old(self)@.screen,
                        old(self)@.ram,
                        old(self)@.ireg,
                        vx,
                        vy,
                        r as int,
                        b as int,
                    );
                }
                let sh: u8 = (7 - b) as u8;
                let bit = (byte >> sh) & 1 == 1;
                let px: usize = if ox + b < 64 {
                    ox + b
                } else {
                    ox + b - 64
                };
                let py: usize = if oy + r < 32 {
                    oy + r
                } else {
                    oy + r - 32
                };
                let idx: usize = py * 64 + px;
                if bit {
                    let cur = self.screen[idx];
                    if cur {
                        collided = true;
                    }
                    self.screen[idx] = !cur;
                }
                b = b + 1;
            }
            proof {
                lemma_draw_row_roll(
                    old(self)@.screen,
                    old(self)@.ram,
                    old(self)@.ireg,
                    vx,
                    vy,
                    r as int,
                );
            }
            r = r + 1;
        }
        let vf: u8 = if collided {
            1
        } else {
            0
        };
        self.v_registers[0xF] = vf;
    }

    /// Stores the three decimal digits of register X (hundreds, tens,
    /// ones) at the index register.
    fn op_bcd(&mut self, x: usize)
        requires
            old(self).wf(),
            x < 16,
        ensures
            final(self).wf(),
            final(self)@ == (VmView {
                ram: bcd_ram(old(self)@.ram, old(self)@.ireg, old(self)@.regs[x as int]),
                ..old(self)@
            }),
    {
        let v = self.v_registers[x];
        let base = self.i_register as usize;
        self.ram[base % 4096] = v / 100;
        self.ram[(base + 1) % 4096] = (v / 10) % 10;
        self.ram[(base + 2) % 4096] = v % 10;
    }

    /// Stores registers 0 through X into memory starting at the index
    /// register.
    fn op_store(&mut self, x: usize)
        requires
            old(self).wf(),
            x < 16,
        ensures
            final(self).wf(),
            final(self)@ == (VmView {
                ram: store_block(old(self)@.ram, old(self)@.regs, old(self)@.ireg, (x + 1) as nat),
                ..old(self)@
            }),
    {
        let mut k: usize = 0;
        while k < x + 1
            invariant
                old(self).wf(),
                x < 16,
                k <= x + 1,
                self@ == (VmView { ram: self@.ram, ..old(self)@ }),
                self@.ram.len() == 4096,
                self@.ram == store_block(
                    old(self)@.ram,
                    old(self)@.regs,
                    old(self)@.ireg,
                    k as nat,
                ),
            decreases x + 1 - k,
        {
            let addr = (self.i_register as usize + k) % 4096;
            self.ram[addr] = self.v_registers[k];
            k = k + 1;
        }
    }

    /// Loads memory starting at the index register into registers 0
    /// through X.
    fn op_load(&mut self, x: usize)
        requires
            old(self).wf(),
            x < 16,
        ensures
            final(self).wf(),
            final(self)@ == (VmView {
                regs: load_block(old(self)@.regs, old(self)@.ram, old(self)@.ireg, (x + 1) as nat),
                ..old(self)@
            }),
    {
        let mut k: usize = 0;
        while k < x + 1
            invariant
                old(self).wf(),
                x < 16,
                k <= x + 1,
                self@ == (VmView { regs: self@.regs, ..old(self)@ }),
                self@.regs.len() == 16,
                self@.regs == load_block(
                    old(self)@.regs,
                    old(self)@.ram,
                    old(self)@.ireg,
                    k as nat,
                ),
            decreases x + 1 - k,
        {
            let addr = (self.i_register as usize + k) % 4096;
            self.v_registers[k] = self.ram[addr];
            k = k + 1;
        }
    }

    /// Dispatches one decoded instruction word from the post-fetch state:
    /// exactly the transition `exec_spec` describes, for some byte from
    /// the randomness source.
    fn execute(&mut self, w: u16) -> (r: Result<(), EmuError>)
        requires
            old(self).wf(),
        ensures
            final(self).wf(),
            exists|rnd: u8|
                exec_spec(old(self)@, w, rnd) == (StepOut { st: final(self)@, res: r }),
    {
        proof {
            lemma_nibbles(w);
        }
        let d1 = w / 0x1000;
        let d2 = (w / 0x100) % 0x10;
        let d3 = (w / 0x10) % 0x10;
        let d4 = w % 0x10;
        let nn = (w % 0x100) as u8;
        let nnn = w % 0x1000;
        let x = d2 as usize;
        let y = d3 as usize;
        if w == 0x0000 {
            proof {
                assert(exec_spec(old(self)@, w, 0u8) == (StepOut {
                    st: self@,
                    res: Ok::<(), EmuError>(()),
                }));
            }
            Ok(())
        } else if w == 0x00E0 {
            self.op_clear();
            proof {
                assert(exec_spec(old(self)@, w, 0u8) == (StepOut {
                    st: self@,
                    res: Ok::<(), EmuError>(()),
                }));
            }
            Ok(())
        } else if w == 0x00EE {
            if self.stack_pointer == 0 {
                proof {
                    assert(exec_spec(old(self)@, w, 0u8) == (StepOut {
                        st: self@,
                        res: Err::<(), EmuError>(EmuError::StackUnderflow),
                    }));
                }
                Err(EmuError::StackUnderflow)
            } else {
                let ret = self.pop();
                self.pc = ret;
                proof {
                    assert(exec_spec(old(self)@, w, 0u8) == (StepOut {
                        st: self@,
                        res: Ok::<(), EmuError>(()),
                    }));
                }
                Ok(())
            }
        } else if d1 == 1 {
            self.pc = nnn;
            proof {
                assert(exec_spec(old(self)@, w, 0u8) == (StepOut {
                    st: self@,
                    res: Ok::<(), EmuError>(()),
                }));
            }
            Ok(())
        } else if d1 == 2 {
            if self.stack_pointer == 16 {
                proof {
                    assert(exec_spec(old(self)@, w, 0u8) == (StepOut {
                        st: self@,
                        res: Err::<(), EmuError>(EmuError::StackOverflow),
                    }));
                }
                Err(EmuError::StackOverflow)
            } else {
                let ret = self.pc;
                self.push(ret);
                self.pc = nnn;
                proof {
                    assert(exec_spec(old(self)@, w, 0u8) == (StepOut {
                        st: self@,
                        res: Ok::<(), EmuError>(()),
                    }));
                }
                Ok(())
            }
        } else if d1 == 3 {
            if self.v_registers[x] == nn {
                self.bump_pc();
            }
            proof {
                assert(exec_spec(old(self)@, w, 0u8) == (StepOut {
                    st: self@,
                    res: Ok::<(), EmuError>(()),
                }));
            }
            Ok(())
        } else if d1 == 4 {
            if self.v_registers[x] != nn {
                self.bump_pc();
            }
            proof {
                assert(exec_spec(old(self)@, w, 0u8) == (StepOut {
                    st: self@,
                    res: Ok::<(), EmuError>(()),
                }));
            }
            Ok(())
        } else if d1 == 5 && d4 == 0 {
            if self.v_registers[x] == self.v_registers[y] {
                self.bump_pc();
            }
            proof {
                assert(exec_spec(old(self)@, w, 0u8) == (StepOut {
                    st: self@,
                    res: Ok::<(), EmuError>(()),
                }));
            }
            Ok(())
        } else if d1 == 6 {
            self.v_registers[x] = nn;
            proof {
                assert(exec_spec(old(self)@, w, 0u8) == (StepOut {
                    st: self@,
                    res: Ok::<(), EmuError>(()),
                }));
            }
            Ok(())
        } else if d1 == 7 {
            let vx = self.v_registers[x];
            let sum: u16 = vx as u16 + nn as u16;
            self.v_registers[x] = if sum >= 256 {
                (sum - 256) as u8
            } else {
                sum as u8
            };
            proof {
                assert(exec_spec(old(self)@, w, 0u8) == (StepOut {
                    st: self@,
                    res: Ok::<(), EmuError>(()),
                }));
            }
            Ok(())
        } else if d1 == 8 && (d4 <= 7 || d4 == 0xE) {
            self.op_alu(x, y, d4);
            proof {
                assert(exec_spec(old(self)@, w, 0u8) == (StepOut {
                    st: self@,
                    res: Ok::<(), EmuError>(()),
                }));
            }
            Ok(())
        } else if d1 == 9 && d4 == 0 {
            if self.v_registers[x] != self.v_registers[y] {
                self.bump_pc();
            }
            proof {
                assert(exec_spec(old(self)@, w, 0u8) == (StepOut {
                    st: self@,
                    res: Ok::<(), EmuError>(()),
                }));
            }
            Ok(())
        } else if d1 == 0xA {
            self.i_register = nnn;
            proof {
                assert(exec_spec(old(self)@, w, 0u8) == (StepOut {
                    st: self@,
                    res: Ok::<(), EmuError>(()),
                }));
            }
            Ok(())
        } else if d1 == 0xB {
            self.pc = nnn + self.v_registers[0] as u16;
            proof {
                assert(exec_spec(old(self)@, w, 0u8) == (StepOut {
                    st: self@,
                    res: Ok::<(), EmuError>(()),
                }));
            }
            Ok(())
        } else if d1 == 0xC {
            let rnd = random_byte();
            self.v_registers[x] = rnd & nn;
            proof {
                assert(exec_spec(old(self)@, w, rnd) == (StepOut {
                    st: self@,
                    res: Ok::<(), EmuError>(()),
                }));
            }
            Ok(())
        } else if d1 == 0xD {
            self.op_draw(x, y, d4);
            proof {
                assert(exec_spec(old(self)@, w, 0u8) == (StepOut {
                    st: self@,
                    res: Ok::<(), EmuError>(()),
                }));
            }
            Ok(())
        } else if d1 == 0xE && d3 == 9 && d4 == 0xE {
            let key = (self.v_registers[x] as usize) % 16;
            if self.keys[key] {
                self.bump_pc();
            }
            proof {
                assert(exec_spec(old(self)@, w, 0u8) == (StepOut {
                    st: self@,
                    res: Ok::<(), EmuError>(()),
                }));
            }
            Ok(())
        } else if d1 == 0xE && d3 == 0xA && d4 == 1 {
            let key = (self.v_registers[x] as usize) % 16;
            if !self.keys[key] {
                self.bump_pc();
            }
            proof {
                assert(exec_spec(old(self)@, w, 0u8) == (StepOut {
                    st: self@,
                    res: Ok::<(), EmuError>(()),
                }));
            }
            Ok(())
        } else if d1 == 0xF && d3 == 0 && d4 == 7 {
            self.v_registers[x] = self.delay_timer;
            proof {
                assert(exec_spec(old(self)@, w, 0u8) == (StepOut {
                    st: self@,
                    res: Ok::<(), EmuError>(()),
                }));
            }
            Ok(())
        } else if d1 == 0xF && d3 == 0 && d4 == 0xA {
            self.mode = RunMode::WaitingForKey(d2 as u8);
            proof {
                assert(exec_spec(old(self)@, w, 0u8) == (StepOut {
                    st: self@,
                    res: Ok::<(), EmuError>(()),
                }));
            }
            Ok(())
        } else if d1 == 0xF && d3 == 1 && d4 == 5 {
            self.delay_timer = self.v_registers[x];
            proof {
                assert(exec_spec(old(self)@, w, 0u8) == (StepOut {
                    st: self@,
                    res: Ok::<(), EmuError>(()),
                }));
            }
            Ok(())
        } else if d1 == 0xF && d3 == 1 && d4 == 8 {
            self.sound_timer = self.v_registers[x];
            proof {
                assert(exec_spec(old(self)@, w, 0u8) == (StepOut {
                    st: self@,
                    res: Ok::<(), EmuError>(()),
                }));
            }
            Ok(())
        } else if d1 == 0xF && d3 == 1 && d4 == 0xE {
            let next: u32 = self.i_register as u32 + self.v_registers[x] as u32;
            self.i_register = if next >= 0x10000 {
                (next - 0x10000) as u16
            } else {
                next as u16
            };
            proof {
                assert(exec_spec(old(self)@, w, 0u8) == (StepOut {
                    st: self@,
                    res: Ok::<(), EmuError>(()),
                }));
            }
            Ok(())
        } else if d1 == 0xF && d3 == 2 && d4 == 9 {
            self.i_register = self.v_registers[x] as u16 * 5;
            proof {
                assert(exec_spec(old(self)@, w, 0u8) == (StepOut {
                    st: self@,
                    res: Ok::<(), EmuError>(()),
                }));
            }
            Ok(())
        } else if d1 == 0xF && d3 == 3 && d4 == 3 {
            self.op_bcd(x);
            proof {
                assert(exec_spec(old(self)@, w, 0u8) == (StepOut {
                    st: self@,
                    res: Ok::<(), EmuError>(()),
                }));
            }
            Ok(())
        } else if d1 == 0xF && d3 == 5 && d4 == 5 {
            self.op_store(x);
            proof {
                assert(exec_spec(old(self)@, w, 0u8) == (StepOut {
                    st: self@,
                    res: Ok::<(), EmuError>(()),
                }));
            }
            Ok(())
        } else if d1 == 0xF && d3 == 6 && d4 == 5 {
            self.op_load(x);
            proof {
                assert(exec_spec(old(self)@, w, 0u8) == (StepOut {
                    st: self@,
                    res: Ok::<(), EmuError>(()),
                }));
            }
            Ok(())
        } else {
            proof {
                assert(exec_spec(old(self)@, w, 0u8) == (StepOut {
                    st: self@,
                    res: Err::<(), EmuError>(EmuError::UnimplementedOpcode(w)),
                }));
            }
            Err(EmuError::UnimplementedOpcode(w))
        }
    }

    /// One cycle: while waiting for a key, only poll the pad; otherwise
    /// fetch the word at the program counter, advance past it, and
    /// execute it. The outcome and the new state are exactly what
    /// `step_spec` describes, for some byte from the randomness source.
    pub fn tick(&mut self) -> (r: Result<(), EmuError>)
        requires
            old(self).wf(),
        ensures
            final(self).wf(),
            exists|rnd: u8|
                step_spec(old(self)@, rnd) == (StepOut { st: final(self)@, res: r }),
    {
        let m = self.mode;
        match m {
            RunMode::WaitingForKey(xr) => {
                self.poll_key(xr);
                proof {
                    assert(step_spec(old(self)@, 0u8) == (StepOut {
                        st: self@,
                        res: Ok::<(), EmuError>(()),
                    }));
                }
                Ok(())
            },
            RunMode::Running => {
                let w = self.fetch();
                let ghost mid = self@;
                let r = self.execute(w);
                proof {
                    let rnd = choose|rnd: u8|
                        exec_spec(mid, w, rnd) == (StepOut { st: self@, res: r });
                    assert(step_spec(old(self)@, rnd) == (StepOut { st: self@, res: r }));
                }
                r
            },
        }
    }
}

} // verus!
