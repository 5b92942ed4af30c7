//! The mathematical model of the machine.
//!
//! [`State`] is the ghost image of the whole machine; the relation
//! [`step_ok`] says which post-states an instruction may produce from a
//! pre-state (it is a function of the pre-state for every instruction except
//! the random draw), and [`step_err`] gives the exact fatal error an
//! instruction raises, if any.  On top of those, [`cycle_ok`] and
//! [`run_cycles`] model one fetch-decode-execute cycle and a bounded run of
//! cycles, which is what one external tick performs.

use vstd::prelude::*;

use crate::errors::VmError;
use crate::inst::{spec_decode, spec_pc_inc, Instruction};

verus! {

/// Number of memory bytes.
pub const RAM_SIZE: usize = 4096;

/// Offset at which a loaded program starts, and the reset program counter.
pub const PROGRAM_START: usize = 512;

/// Offset of the built-in font table.
pub const FONT_ADDR: usize = 0x50;

/// Bytes per font glyph.
pub const FONT_SIZE: usize = 5;

/// The ghost image of the machine: memory, registers, program counter, index
/// register, call stack, timers, framebuffer, input latch and beeping flag.
#[verifier::ext_equal]
pub ghost struct State {
    pub ram: Seq<u8>,
    pub regs: Seq<u8>,
    pub pc: int,
    pub index: int,
    pub stack: Seq<int>,
    pub delay: u8,
    pub sound: u8,
    pub beeping: bool,
    pub key: Option<u8>,
    pub waiting: Option<int>,
    pub pixels: Seq<Seq<bool>>,
    pub clock: u64,
}

impl State {
    /// Well-formedness: the fixed sizes of memory, register file and
    /// framebuffer, and the ranges of program counter, index register, stack
    /// entries and latched values.
    pub open spec fn wf(self) -> bool {
        &&& self.ram.len() == RAM_SIZE
        &&& self.regs.len() == 16
        &&& self.pixels.len() == 32
        &&& forall|r: int| 0 <= r < 32 ==> (#[trigger] self.pixels[r]).len() == 64
        &&& 0 <= self.pc <= RAM_SIZE + 2
        &&& 0 <= self.index < 0x10000
        &&& forall|j: int|
            0 <= j < self.stack.len() ==> 0 <= #[trigger] self.stack[j] && self.stack[j] + 1
                < RAM_SIZE
        &&& match self.waiting {
            Some(x) => 0 <= x < 16,
            None => true,
        }
        &&& match self.key {
            Some(k) => k < 16,
            None => true,
        }
    }
}

/// One 60 Hz timer decrement: down by one, saturating at zero.
pub open spec fn sat_dec(t: u8) -> u8 {
    if t == 0 {
        0
    } else {
        (t - 1) as u8
    }
}

/// The all-off framebuffer.
pub open spec fn blank_pixels() -> Seq<Seq<bool>> {
    Seq::new(32, |r: int| Seq::new(64, |c: int| false))
}

/// `dst` with `src` written over it starting at offset `at`.
pub open spec fn overlay<T>(dst: Seq<T>, at: int, src: Seq<T>) -> Seq<T> {
    Seq::new(dst.len(), |j: int| if at <= j < at + src.len() { src[j - at] } else { dst[j] })
}

/// Bit `k` of a sprite row, counted from the high bit: bit 0 of the row is
/// the leftmost pixel of the sprite.
pub open spec fn sprite_bit(row: u8, k: int) -> bool {
    (row >> ((7 - k) as u8)) & 1 == 1
}

/// Whether the sprite draw with origin `(x0, y0)` and `n` rows, read from
/// memory at the index register of `s`, toggles the framebuffer cell
/// `(cx, cy)`.  A cell is toggled when it lies under a set sprite bit; the
/// sprite is clipped, not wrapped, at the right and bottom screen edges.
pub open spec fn draw_covers(s: State, x0: int, y0: int, n: int, cx: int, cy: int) -> bool {
    &&& y0 <= cy < y0 + n
    &&& cy < 32
    &&& x0 <= cx < x0 + 8
    &&& cx < 64
    &&& sprite_bit(s.ram[s.index + (cy - y0)], cx - x0)
}

/// [`draw_covers`] for a draw in progress: `r` full rows done, plus the
/// first `k` bits of row `r` when that row is still on screen.
pub open spec fn draw_covers_partial(
    s: State,
    x0: int,
    y0: int,
    r: int,
    k: int,
    cx: int,
    cy: int,
) -> bool {
    draw_covers(s, x0, y0, r, cx, cy) || {
        &&& cy == y0 + r
        &&& cy < 32
        &&& x0 <= cx < x0 + k
        &&& cx < 64
        &&& sprite_bit(s.ram[s.index + r], cx - x0)
    }
}

/// Whether the draw toggles off at least one lit pixel (the collision flag).
pub open spec fn draw_collision(s: State, x0: int, y0: int, n: int) -> bool {
    exists|cx: int, cy: int|
        0 <= cx < 64 && 0 <= cy < 32 && draw_covers(s, x0, y0, n, cx, cy) && s.pixels[cy][cx]
}

/// [`draw_collision`] for a draw in progress: whether the cells covered so
/// far include a lit pixel.
pub open spec fn partial_collision(s: State, x0: int, y0: int, r: int, k: int) -> bool {
    exists|cx: int, cy: int|
        0 <= cx < 64 && 0 <= cy < 32 && draw_covers_partial(s, x0, y0, r, k, cx, cy)
            && s.pixels[cy][cx]
}

/// Two stages of a draw that cover the same cells see the same collisions.
pub proof fn lemma_partial_collision_eq(
    s: State,
    x0: int,
    y0: int,
    r1: int,
    k1: int,
    r2: int,
    k2: int,
)
    requires
        forall|cx: int, cy: int|
            0 <= cx < 64 && 0 <= cy < 32 ==> draw_covers_partial(s, x0, y0, r1, k1, cx, cy)
                == draw_covers_partial(s, x0, y0, r2, k2, cx, cy),
    ensures
        partial_collision(s, x0, y0, r1, k1) == partial_collision(s, x0, y0, r2, k2),
{
    if partial_collision(s, x0, y0, r1, k1) {
        let (cx, cy) = choose|cx: int, cy: int|
            0 <= cx < 64 && 0 <= cy < 32 && draw_covers_partial(s, x0, y0, r1, k1, cx, cy)
                && s.pixels[cy][cx];
        assert(draw_covers_partial(s, x0, y0, r2, k2, cx, cy) && s.pixels[cy][cx]);
        assert(partial_collision(s, x0, y0, r2, k2));
    }
    if partial_collision(s, x0, y0, r2, k2) {
        let (cx, cy) = choose|cx: int, cy: int|
            0 <= cx < 64 && 0 <= cy < 32 && draw_covers_partial(s, x0, y0, r2, k2, cx, cy)
                && s.pixels[cy][cx];
        assert(draw_covers_partial(s, x0, y0, r1, k1, cx, cy) && s.pixels[cy][cx]);
        assert(partial_collision(s, x0, y0, r1, k1));
    }
}

/// The finished draw's collision flag is the staged one at `n` full rows.
pub proof fn lemma_draw_collision_partial(s: State, x0: int, y0: int, n: int)
    ensures
        draw_collision(s, x0, y0, n) == partial_collision(s, x0, y0, n, 0),
{
    if draw_collision(s, x0, y0, n) {
        let (cx, cy) = choose|cx: int, cy: int|
            0 <= cx < 64 && 0 <= cy < 32 && draw_covers(s, x0, y0, n, cx, cy) && s.pixels[cy][cx];
        assert(draw_covers_partial(s, x0, y0, n, 0, cx, cy) && s.pixels[cy][cx]);
        assert(partial_collision(s, x0, y0, n, 0));
    }
    if partial_collision(s, x0, y0, n, 0) {
        let (cx, cy) = choose|cx: int, cy: int|
            0 <= cx < 64 && 0 <= cy < 32 && draw_covers_partial(s, x0, y0, n, 0, cx, cy)
                && s.pixels[cy][cx];
        assert(draw_covers(s, x0, y0, n, cx, cy) && s.pixels[cy][cx]);
        assert(draw_collision(s, x0, y0, n));
    }
}

/// The framebuffer after the draw: every covered cell is XOR-toggled, every
/// other cell keeps its value.
pub open spec fn draw_pixels(s: State, x0: int, y0: int, n: int) -> Seq<Seq<bool>> {
    Seq::new(
        32,
        |cy: int| Seq::new(64, |cx: int| s.pixels[cy][cx] != draw_covers(s, x0, y0, n, cx, cy)),
    )
}

/// The exact fatal error executing `inst` in `pre` raises, or `None` when the
/// instruction executes: a return underflows an empty stack, and the memory
/// ranges touched by the sprite read, the BCD write and the register block
/// copies must lie inside memory.
pub open spec fn step_err(pre: State, inst: Instruction) -> Option<VmError> {
    match inst {
        Instruction::SubroutineReturn00EE => if pre.stack.len() == 0 {
            Some(VmError::StackUnderflow)
        } else {
            None
        },
        Instruction::Dxyn(_x, _y, n) => if pre.index + n > RAM_SIZE {
            Some(VmError::OutOfRangeMemory)
        } else {
            None
        },
        Instruction::BinaryCodedDecimalConversionFX33(_x) => if pre.index + 3 > RAM_SIZE {
            Some(VmError::OutOfRangeMemory)
        } else {
            None
        },
        Instruction::StoreRegistersToMemoryFX55(x) => if pre.index + x + 1 > RAM_SIZE {
            Some(VmError::OutOfRangeMemory)
        } else {
            None
        },
        Instruction::LoadRegistersFromMemoryFX65(x) => if pre.index + x + 1 > RAM_SIZE {
            Some(VmError::OutOfRangeMemory)
        } else {
            None
        },
        _ => None,
    }
}

/// The step relation: executing `inst` in `pre` may produce `post`.  Every
/// instruction except the random draw determines `post` uniquely; the random
/// draw pins everything except the drawn byte.  The relation covers only the
/// instruction's own effect: the generic program-counter advance is
/// [`advanced`], applied by the cycle.
pub open spec fn step_ok(pre: State, inst: Instruction, post: State) -> bool {
    match inst {
        Instruction::Cls00E0 => post == State { pixels: blank_pixels(), ..pre },
        Instruction::SetIndexRegisterANNN(nnn) => post == State { index: nnn as int, ..pre },
        Instruction::SetVRegister6XNN(x, nn) => post == State {
            regs: pre.regs.update(x as int, nn),
            ..pre
        },
        Instruction::Dxyn(x, y, n) => {
            let x0 = pre.regs[x as int] as int % 64;
            let y0 = pre.regs[y as int] as int % 32;
            post == State {
                pixels: draw_pixels(pre, x0, y0, n as int),
                regs: pre.regs.update(
                    15,
                    if draw_collision(pre, x0, y0, n as int) {
                        1u8
                    } else {
                        0u8
                    },
                ),
                ..pre
            }
        },
        Instruction::Add7XNN(x, nn) => {
            let vx = pre.regs[x as int];
            post == State { regs: pre.regs.update(x as int, ((vx + nn) % 256) as u8), ..pre }
        },
        Instruction::Jump1NNN(nnn) => post == State { pc: nnn as int, ..pre },
        Instruction::SubroutineCall2NNN(nnn) => post == State {
            stack: pre.stack.push(pre.pc),
            pc: nnn as int,
            ..pre
        },
        Instruction::SubroutineReturn00EE => pre.stack.len() > 0 && post == State {
            stack: pre.stack.drop_last(),
            pc: pre.stack.last(),
            ..pre
        },
        Instruction::SkipEqual3XNN(x, nn) => post == State {
            pc: if pre.regs[x as int] == nn {
                pre.pc + 2
            } else {
                pre.pc
            },
            ..pre
        },
        Instruction::SkipNotEqual4XNN(x, nn) => post == State {
            pc: if pre.regs[x as int] != nn {
                pre.pc + 2
            } else {
                pre.pc
            },
            ..pre
        },
        Instruction::BinaryCodedDecimalConversionFX33(x) => {
            let v = pre.regs[x as int];
            pre.index + 3 <= RAM_SIZE && post == State {
                ram: pre.ram.update(pre.index, (v / 100) as u8).update(
                    pre.index + 1,
                    ((v % 100) / 10) as u8,
                ).update(pre.index + 2, (v % 10) as u8),
                ..pre
            }
        },
        Instruction::FontCharacterFX29(x) => post == State {
            index: FONT_ADDR + pre.regs[x as int] * FONT_SIZE,
            ..pre
        },
        Instruction::SetDelayTimerFX15(x) => post == State { delay: pre.regs[x as int], ..pre },
        Instruction::ReadDelayTimerFX07(x) => post == State {
            regs: pre.regs.update(x as int, pre.delay),
            ..pre
        },
        Instruction::GetKeyFX0A(x) => post == State { waiting: Some(x as int), ..pre },
        Instruction::SetSoundTimerFX18(x) => post == State { sound: pre.regs[x as int], ..pre },
        Instruction::AddToIndexFX1E(x) => {
            let sum = pre.index + pre.regs[x as int];
            post == State {
                index: sum % 0x10000,
                regs: if sum > 0xFFF {
                    pre.regs.update(15, 1u8)
                } else {
                    pre.regs
                },
                ..pre
            }
        },
        Instruction::StoreRegistersToMemoryFX55(x) => pre.index + x + 1 <= RAM_SIZE && post
            == State { ram: overlay(pre.ram, pre.index, pre.regs.subrange(0, x + 1)), ..pre },
        Instruction::LoadRegistersFromMemoryFX65(x) => pre.index + x + 1 <= RAM_SIZE && post
            == State {
            regs: overlay(pre.regs, 0, pre.ram.subrange(pre.index, pre.index + x + 1)),
            ..pre
        },
        Instruction::RandomCXNN(x, nn) => {
            let v = post.regs[x as int];
            v & nn == v && post == State { regs: pre.regs.update(x as int, v), ..pre }
        },
        Instruction::SkipIfKeyPressedEX9E(x) => post == State {
            pc: if pre.key == Some(pre.regs[x as int]) {
                pre.pc + 2
            } else {
                pre.pc
            },
            ..pre
        },
        Instruction::SkipIfKeyNotPressedEXA1(x) => post == State {
            pc: if pre.key != Some(pre.regs[x as int]) {
                pre.pc + 2
            } else {
                pre.pc
            },
            ..pre
        },
        Instruction::BinaryAnd8XY2(x, y) => post == State {
            regs: pre.regs.update(x as int, pre.regs[x as int] & pre.regs[y as int]),
            ..pre
        },
        Instruction::RegisterAdd8XY4(x, y) => {
            let sum = pre.regs[x as int] + pre.regs[y as int];
            post == State {
                regs: pre.regs.update(x as int, (sum % 256) as u8).update(
                    15,
                    if sum > 255 {
                        1u8
                    } else {
                        0u8
                    },
                ),
                ..pre
            }
        },
        Instruction::RegisterSet8XY0(x, y) => post == State {
            regs: pre.regs.update(x as int, pre.regs[y as int]),
            ..pre
        },
        Instruction::RegisterSub8XY5(x, y) => {
            let vx = pre.regs[x as int];
            let vy = pre.regs[y as int];
            post == State {
                regs: pre.regs.update(x as int, ((vx - vy) % 256) as u8).update(
                    15,
                    if vx >= vy {
                        1u8
                    } else {
                        0u8
                    },
                ),
                ..pre
            }
        },
        Instruction::RegisterSubRev8XY7(x, y) => {
            let vx = pre.regs[x as int];
            let vy = pre.regs[y as int];
            post == State {
                regs: pre.regs.update(x as int, ((vy - vx) % 256) as u8).update(
                    15,
                    if vy >= vx {
                        1u8
                    } else {
                        0u8
                    },
                ),
                ..pre
            }
        },
        Instruction::ShiftRight8XY6(x, _y) => {
            let r1 = pre.regs.update(15, (pre.regs[x as int] % 2) as u8);
            post == State { regs: r1.update(x as int, (r1[x as int] / 2) as u8), ..pre }
        },
        Instruction::ShiftLeft8XYE(x, _y) => {
            let r1 = pre.regs.update(
                15,
                if pre.regs[x as int] >= 128 {
                    1u8
                } else {
                    0u8
                },
            );
            post == State { regs: r1.update(x as int, ((r1[x as int] * 2) % 256) as u8), ..pre }
        },
        Instruction::SkipIfEqual5XY0(x, y) => post == State {
            pc: if pre.regs[x as int] == pre.regs[y as int] {
                pre.pc + 2
            } else {
                pre.pc
            },
            ..pre
        },
        Instruction::SkipIfNotEqual9XY0(x, y) => post == State {
            pc: if pre.regs[x as int] != pre.regs[y as int] {
                pre.pc + 2
            } else {
                pre.pc
            },
            ..pre
        },
        Instruction::Xor8XY3(x, y) => post == State {
            regs: pre.regs.update(x as int, pre.regs[x as int] ^ pre.regs[y as int]),
            ..pre
        },
    }
}

/// The generic program-counter advance after `inst`.
pub open spec fn advanced(s: State, inst: Instruction) -> State {
    State { pc: s.pc + spec_pc_inc(inst), ..s }
}

/// The beeping flag after the audio edge check that follows every cycle: the
/// beep is active exactly while the sound timer is nonzero, and the audio
/// capability is invoked only when the flag flips.
pub open spec fn beep_synced(s: State) -> State {
    State { beeping: s.sound > 0, ..s }
}

/// The exact fatal error one fetch-decode-execute cycle raises in `s`, or
/// `None` when the cycle completes (a waiting machine stalls and never
/// fails).
pub open spec fn cycle_err(s: State) -> Option<VmError> {
    if s.waiting is Some {
        None
    } else if !(0 <= s.pc && s.pc + 1 < RAM_SIZE) {
        Some(VmError::OutOfRangeMemory)
    } else {
        match spec_decode(s.ram[s.pc], s.ram[s.pc + 1]) {
            None => Some(VmError::UnknownOpcode),
            Some(inst) => step_err(s, inst),
        }
    }
}

/// One fetch-decode-execute cycle relates `pre` to `post`: a waiting machine
/// stalls, otherwise the instruction at the program counter decodes, executes
/// without a fatal error, the program counter advances generically, and the
/// beeping flag is synchronized with the sound timer.
pub open spec fn cycle_ok(pre: State, post: State) -> bool {
    if pre.waiting is Some {
        post == pre
    } else {
        &&& 0 <= pre.pc && pre.pc + 1 < RAM_SIZE
        &&& match spec_decode(pre.ram[pre.pc], pre.ram[pre.pc + 1]) {
            Some(inst) => {
                &&& step_err(pre, inst) is None
                &&& exists|mid: State|
                    step_ok(pre, inst, mid) && post == beep_synced(advanced(mid, inst))
            },
            None => false,
        }
    }
}

/// `k` consecutive cycles relate `pre` to `post`.
pub open spec fn run_cycles(pre: State, post: State, k: nat) -> bool
    decreases k,
{
    if k == 0 {
        post == pre
    } else {
        exists|mid: State| run_cycles(pre, mid, (k - 1) as nat) && cycle_ok(mid, post)
    }
}

/// Both timers decremented once, saturating at zero: the first thing every
/// external tick does.
pub open spec fn timers_decremented(s: State) -> State {
    State { delay: sat_dec(s.delay), sound: sat_dec(s.sound), ..s }
}

} // verus!
