//! The machine state and everything that mutates it.

use vstd::prelude::*;

use crate::caps::{Audio, Graphics};
use crate::errors::VmError;
use crate::font::{build_font, font_table};
use crate::inst::{spec_decode, Instruction};
use crate::rng::random_byte;
use crate::step::{
    advanced, beep_synced, blank_pixels, cycle_err, cycle_ok, draw_collision, draw_covers,
    draw_covers_partial, draw_pixels, lemma_draw_collision_partial, lemma_partial_collision_eq,
    overlay, partial_collision, run_cycles, sprite_bit, step_err, step_ok, timers_decremented,
    State, FONT_ADDR, FONT_SIZE, PROGRAM_START, RAM_SIZE,
};
use crate::{FPS, TERMINAL_HEIGHT, TERMINAL_WIDTH};

verus! {

/// The CHIP-8 machine.
///
/// One instance owns the whole state: memory, registers, program counter,
/// index register, call stack, timers, framebuffer and input latch.  Its
/// ghost image is a [`State`]; every mutating operation is specified against
/// that image.
#[derive(Debug)]
pub struct Chip8 {
    clock: u64,
    pixels: Vec<Vec<bool>>,
    ram: Vec<u8>,
    pc: usize,
    i: usize,
    stack: Vec<usize>,
    registers: Vec<u8>,
    delay_timer: u8,
    sound_timer: u8,
    beeping: bool,
    key_pressed: Option<u8>,
    waiting_for_input: Option<usize>,
}

impl View for Chip8 {
    type V = State;

    closed spec fn view(&self) -> State {
        State {
            ram: self.ram@,
            regs: self.registers@,
            pc: self.pc as int,
            index: self.i as int,
            stack: self.stack@.map_values(|v: usize| v as int),
            delay: self.delay_timer,
            sound: self.sound_timer,
            beeping: self.beeping,
            key: self.key_pressed,
            waiting: match self.waiting_for_input {
                Some(x) => Some(x as int),
                None => None,
            },
            pixels: self.pixels@.map_values(|row: Vec<bool>| row@),
            clock: self.clock,
        }
    }
}

/// The machine as constructed: font in memory, program counter at the
/// program start, everything else zeroed, blank screen.
pub open spec fn spec_reset(clock: u64) -> State {
    State {
        ram: spec_initial_ram(),
        regs: Seq::new(16, |j: int| 0u8),
        pc: PROGRAM_START as int,
        index: 0,
        stack: Seq::empty(),
        delay: 0,
        sound: 0,
        beeping: false,
        key: None,
        waiting: None,
        pixels: blank_pixels(),
        clock,
    }
}

/// The initial memory: the font table at its fixed offset, zero elsewhere.
pub open spec fn spec_initial_ram() -> Seq<u8> {
    Seq::new(
        RAM_SIZE as nat,
        |a: int|
            if FONT_ADDR <= a < FONT_ADDR + 80 {
                font_table()[a - FONT_ADDR]
            } else {
                0u8
            },
    )
}

impl Chip8 {
    /// Returns a machine in the reset state.
    ///
    /// `clock` is the instruction rate in instructions per second; each
    /// external tick runs `clock / 60` instructions.  The common value is
    /// `700`.
    pub fn new(clock: u64) -> (r: Chip8)
        ensures
            r@ == spec_reset(clock),
            r@.wf(),
    {
        let mut ram: Vec<u8> = Vec::new();
        let mut a: usize = 0;
        while a < RAM_SIZE
            invariant
                ram@.len() == a,
                a <= RAM_SIZE,
                forall|j: int| 0 <= j < a ==> ram@[j] == 0u8,
            decreases RAM_SIZE - a,
        {
            ram.push(0);
            a += 1;
        }
        let font = build_font();
        let mut k: usize = 0;
        while k < 80
            invariant
                ram@.len() == RAM_SIZE,
                k <= 80,
                font@ == font_table(),
                font@.len() == 80,
                forall|j: int|
                    FONT_ADDR <= j < FONT_ADDR + k ==> ram@[j] == font_table()[j - FONT_ADDR],
                forall|j: int|
                    0 <= j < RAM_SIZE && !(FONT_ADDR <= j < FONT_ADDR + k) ==> ram@[j] == 0u8,
            decreases 80 - k,
        {
            ram[FONT_ADDR + k] = font[k];
            k += 1;
        }
        let pixels = blank_screen();
        let mut registers: Vec<u8> = Vec::new();
        let mut x: usize = 0;
        while x < 16
            invariant
                registers@.len() == x,
                x <= 16,
                forall|j: int| 0 <= j < x ==> registers@[j] == 0u8,
            decreases 16 - x,
        {
            registers.push(0);
            x += 1;
        }
        let machine = Chip8 {
            clock,
            pixels,
            ram,
            pc: PROGRAM_START,
            i: 0,
            stack: Vec::new(),
            registers,
            delay_timer: 0,
            sound_timer: 0,
            beeping: false,
            key_pressed: None,
            waiting_for_input: None,
        };
        proof {
            assert(machine@.ram =~= spec_initial_ram());
            assert(machine@.regs =~= Seq::new(16, |j: int| 0u8));
            assert(machine@.stack =~= Seq::<int>::empty());
            assert(machine@.pixels =~~= blank_pixels());
            assert(machine@ =~~= spec_reset(clock));
        }
        machine
    }

    /// Copies a ROM image into memory at the program start.
    ///
    /// Succeeds exactly when the image fits below the end of memory; a ROM
    /// that does not fit is rejected whole, leaving memory untouched.
    pub fn store_in_ram(&mut self, rom: &[u8]) -> (r: Result<(), VmError>)
        requires
            old(self)@.wf(),
        ensures
            final(self)@.wf(),
            match r {
                Ok(()) => rom@.len() + PROGRAM_START <= RAM_SIZE && final(self)@ == State {
                    ram: overlay(old(self)@.ram, PROGRAM_START as int, rom@),
                    ..old(self)@
                },
                Err(e) => {
                    &&& rom@.len() + PROGRAM_START > RAM_SIZE
                    &&& e == VmError::RomTooLarge
                    &&& final(self)@ == old(self)@
                },
            },
    {
        if rom.len() > RAM_SIZE - PROGRAM_START {
            return Err(VmError::RomTooLarge);
        }
        let mut j: usize = 0;
        while j < rom.len()
            invariant
                old(self)@.wf(),
                rom@.len() + PROGRAM_START <= RAM_SIZE,
                j <= rom@.len(),
                self@.ram.len() == RAM_SIZE,
                forall|a: int|
                    0 <= a < RAM_SIZE && !(PROGRAM_START <= a < PROGRAM_START + j)
                        ==> self@.ram[a] == old(self)@.ram[a],
                forall|a: int|
                    PROGRAM_START <= a < PROGRAM_START + j ==> self@.ram[a] == rom@[a
                        - PROGRAM_START],
                self@ == (State { ram: self@.ram, ..old(self)@ }),
            decreases rom@.len() - j,
        {
            self.ram[PROGRAM_START + j] = rom[j];
            j += 1;
        }
        proof {
            assert(self@.ram =~= overlay(old(self)@.ram, PROGRAM_START as int, rom@));
            assert(self@ =~~= State {
                ram: overlay(old(self)@.ram, PROGRAM_START as int, rom@),
                ..old(self)@
            });
        }
        Ok(())
    }

    /// Handles a released key: clears the latch.  Independent of any pending
    /// key wait.
    ///
    /// The real key press/release logic is handled by the client.
    pub fn handle_key_released(&mut self)
        requires
            old(self)@.wf(),
        ensures
            final(self)@.wf(),
            final(self)@ == (State { key: None, ..old(self)@ }),
    {
        self.key_pressed = None;
    }

    /// Handles a pressed key: latches it, and if a get-key instruction is
    /// pending, stores the key into the recorded destination register and
    /// clears the wait, so that execution resumes on the next tick.
    ///
    /// `key` is one of the 16 keypad codes.
    pub fn handle_key_pressed(&mut self, key: u8)
        requires
            old(self)@.wf(),
            key < 16,
        ensures
            final(self)@.wf(),
            final(self)@ == (match old(self)@.waiting {
                Some(x) => State {
                    key: Some(key),
                    regs: old(self)@.regs.update(x, key),
                    waiting: None,
                    ..old(self)@
                },
                None => State { key: Some(key), ..old(self)@ },
            }),
    {
        self.key_pressed = Some(key);
        if let Some(x) = self.waiting_for_input {
            self.registers[x] = key;
            self.waiting_for_input = None;
        }
    }

    /// True when a get-key instruction is pending and the machine is
    /// stalled.
    pub fn is_waiting_for_key(&self) -> (r: bool)
        ensures
            r == (self@.waiting is Some),
    {
        self.waiting_for_input.is_some()
    }

    /// Reads a general-purpose register.
    pub fn register(&self, x: usize) -> (r: u8)
        requires
            self@.wf(),
            x < 16,
        ensures
            r == self@.regs[x as int],
    {
        self.registers[x]
    }

    /// The current program counter.
    pub fn program_counter(&self) -> (r: usize)
        ensures
            r == self@.pc,
    {
        self.pc
    }

    /// The current index register.
    pub fn index_register(&self) -> (r: usize)
        ensures
            r == self@.index,
    {
        self.i
    }

    /// The current call-stack depth.
    pub fn stack_depth(&self) -> (r: usize)
        ensures
            r == self@.stack.len(),
    {
        self.stack.len()
    }

    /// The current delay timer.
    pub fn delay_timer_value(&self) -> (r: u8)
        ensures
            r == self@.delay,
    {
        self.delay_timer
    }

    /// The current sound timer.
    pub fn sound_timer_value(&self) -> (r: u8)
        ensures
            r == self@.sound,
    {
        self.sound_timer
    }

    /// Whether the beep is currently active.
    pub fn is_beeping(&self) -> (r: bool)
        ensures
            r == self@.beeping,
    {
        self.beeping
    }

    /// Reads a memory byte.
    pub fn ram_byte(&self, addr: usize) -> (r: u8)
        requires
            self@.wf(),
            addr < RAM_SIZE,
        ensures
            r == self@.ram[addr as int],
    {
        self.ram[addr]
    }

    /// Returns true if the pixel at the coordinates is on, otherwise false.
    ///
    /// If the coordinates are outside the screen area it returns an error.
    pub fn is_pixel_on(&self, x: usize, y: usize) -> (r: Result<bool, VmError>)
        requires
            self@.wf(),
        ensures
            match r {
                Ok(b) => x < TERMINAL_WIDTH && y < TERMINAL_HEIGHT && b == self@.pixels[y as int][x as int],
                Err(e) => (x >= TERMINAL_WIDTH || y >= TERMINAL_HEIGHT) && e
                    == VmError::OutOfRangeMemory,
            },
    {
        match check_coordinates(x, y) {
            Ok(()) => {
                proof {
                    assert(self@.pixels[y as int] == self.pixels@[y as int]@);
                    assert(self@.pixels[y as int].len() == 64);
                }
                Ok(self.pixels[y][x])
            },
            Err(e) => Err(e),
        }
    }

    /// Decreases the sound and delay timers, saturating at zero.
    fn decrease_timers(&mut self)
        requires
            old(self)@.wf(),
        ensures
            final(self)@.wf(),
            final(self)@ == timers_decremented(old(self)@),
    {
        self.delay_timer = if self.delay_timer == 0 {
            0
        } else {
            self.delay_timer - 1
        };
        self.sound_timer = if self.sound_timer == 0 {
            0
        } else {
            self.sound_timer - 1
        };
    }
}

impl Chip8 {
    /// Clear-screen: one clear call to the graphics capability for every lit
    /// pixel, then a blank framebuffer.
    fn cls<G: Graphics>(&mut self, graphics: &mut G)
        requires
            old(self)@.wf(),
        ensures
            final(self)@.wf(),
            final(self)@ == (State { pixels: blank_pixels(), ..old(self)@ }),
    {
        let ghost pre = self@;
        let mut cy: usize = 0;
        while cy < TERMINAL_HEIGHT
            invariant
                pre.wf(),
                self@ == pre,
                cy <= TERMINAL_HEIGHT,
            decreases TERMINAL_HEIGHT - cy,
        {
            let mut cx: usize = 0;
            while cx < TERMINAL_WIDTH
                invariant
                    pre.wf(),
                    self@ == pre,
                    cy < TERMINAL_HEIGHT,
                    cx <= TERMINAL_WIDTH,
                decreases TERMINAL_WIDTH - cx,
            {
                proof {
                    assert(self@.pixels[cy as int] == self.pixels@[cy as int]@);
                    assert(self@.pixels[cy as int].len() == 64);
                }
                if self.pixels[cy][cx] {
                    graphics.clear_pixel(cx, cy);
                }
                cx += 1;
            }
            cy += 1;
        }
        self.pixels = blank_screen();
        proof {
            assert(self@.pixels =~~= blank_pixels());
            assert(self@ =~~= (State { pixels: blank_pixels(), ..pre }));
        }
    }

    /// Sprite draw: XOR-toggles every cell under a set sprite bit, clipping
    /// (not wrapping) at the right and bottom screen edges, pairing every
    /// toggle with exactly one graphics call, and reporting in `VF` whether
    /// any lit pixel was toggled off.
    fn draw_sprite<G: Graphics>(&mut self, x: usize, y: usize, n: usize, graphics: &mut G) -> (r:
        Result<(), VmError>)
        requires
            old(self)@.wf(),
            x < 16,
            y < 16,
            n < 16,
        ensures
            final(self)@.wf(),
            ({
                let pre = old(self)@;
                let x0 = pre.regs[x as int] as int % 64;
                let y0 = pre.regs[y as int] as int % 32;
                match r {
                    Ok(()) => pre.index + n <= RAM_SIZE && final(self)@ == (State {
                        pixels: draw_pixels(pre, x0, y0, n as int),
                        regs: pre.regs.update(
                            15,
                            if draw_collision(pre, x0, y0, n as int) {
                                1u8
                            } else {
                                0u8
                            },
                        ),
                        ..pre
                    }),
                    Err(e) => pre.index + n > RAM_SIZE && e == VmError::OutOfRangeMemory && final(self)@ == pre,
                }
            }),
    {
        let ghost pre = self@;
        let x0: usize = (self.registers[x] as usize) % TERMINAL_WIDTH;
        let y0: usize = (self.registers[y] as usize) % TERMINAL_HEIGHT;
        let ghost gx = x0 as int;
        let ghost gy = y0 as int;
        if self.i + n > RAM_SIZE {
            return Err(VmError::OutOfRangeMemory);
        }
        self.registers[15] = 0;
        let mut collision = false;
        let mut rr: usize = 0;
        while rr < n && y0 + rr < TERMINAL_HEIGHT
            invariant
                pre.wf(),
                x < 16,
                y < 16,
                n < 16,
                gx == pre.regs[x as int] as int % 64,
                gy == pre.regs[y as int] as int % 32,
                x0 == gx,
                y0 == gy,
                x0 < 64,
                y0 < 32,
                rr <= n,
                pre.index + n <= RAM_SIZE,
                self@.wf(),
                self@ == (State { regs: pre.regs.update(15, 0u8), pixels: self@.pixels, ..pre }),
                forall|cx2: int, cy2: int|
                    0 <= cx2 < 64 && 0 <= cy2 < 32 ==> #[trigger] self@.pixels[cy2][cx2] == (
                    pre.pixels[cy2][cx2] != draw_covers(pre, gx, gy, rr as int, cx2, cy2)),
                collision == partial_collision(pre, gx, gy, rr as int, 0),
            decreases n - rr,
        {
            let row: u8 = self.ram[self.i + rr];
            proof {
                assert forall|cx2: int, cy2: int| 0 <= cx2 < 64 && 0 <= cy2 < 32 implies (
                #[trigger] self@.pixels[cy2][cx2]) == (pre.pixels[cy2][cx2]
                    != draw_covers_partial(pre, gx, gy, rr as int, 0, cx2, cy2)) by {
                    assert(draw_covers_partial(pre, gx, gy, rr as int, 0, cx2, cy2)
                        == draw_covers(pre, gx, gy, rr as int, cx2, cy2));
                };
            }
            let mut k: usize = 0;
            while k < 8 && x0 + k < TERMINAL_WIDTH
                invariant
                    pre.wf(),
                    x0 == gx,
                    y0 == gy,
                    x0 < 64,
                    y0 < 32,
                    rr < n,
                    n < 16,
                    y0 + rr < 32,
                    k <= 8,
                    pre.index + n <= RAM_SIZE,
                    row == pre.ram[pre.index + rr],
                    self@.wf(),
                    self@ == (State {
                        regs: pre.regs.update(15, 0u8),
                        pixels: self@.pixels,
                        ..pre
                    }),
                    forall|cx2: int, cy2: int|
                        0 <= cx2 < 64 && 0 <= cy2 < 32 ==> #[trigger] self@.pixels[cy2][cx2] == (
                        pre.pixels[cy2][cx2] != draw_covers_partial(
                            pre,
                            gx,
                            gy,
                            rr as int,
                            k as int,
                            cx2,
                            cy2,
                        )),
                    collision == partial_collision(pre, gx, gy, rr as int, k as int),
                decreases 8 - k,
            {
                let ghost old_pix = self@.pixels;
                let ghost old_col = collision;
                let sh: u8 = (7 - k) as u8;
                let bit: u8 = (row >> sh) & 1;
                let cx = x0 + k;
                let cy = y0 + rr;
                proof {
                    assert(sprite_bit(pre.ram[pre.index + rr], k as int) == (bit == 1));
                    assert(!draw_covers_partial(
                        pre,
                        gx,
                        gy,
                        rr as int,
                        k as int,
                        cx as int,
                        cy as int,
                    ));
                }
                if bit == 1 {
                    proof {
                        assert(self@.pixels[cy as int] == self.pixels@[cy as int]@);
                        assert(self@.pixels[cy as int].len() == 64);
                    }
                    let on: bool = self.pixels[cy][cx];
                    self.pixels[cy][cx] = !on;
                    if on {
                        graphics.clear_pixel(cx, cy);
                        collision = true;
                    } else {
                        graphics.draw_pixel(cx, cy);
                    }
                    proof {
                        assert(on == pre.pixels[cy as int][cx as int]);
                        assert(self@.pixels =~~= old_pix.update(
                            cy as int,
                            old_pix[cy as int].update(cx as int, !on),
                        ));
                        assert(draw_covers_partial(
                            pre,
                            gx,
                            gy,
                            rr as int,
                            k as int + 1,
                            cx as int,
                            cy as int,
                        ));
                        assert forall|cx2: int, cy2: int|
                            0 <= cx2 < 64 && 0 <= cy2 < 32 implies (
                        #[trigger] self@.pixels[cy2][cx2]) == (pre.pixels[cy2][cx2]
                            != draw_covers_partial(
                            pre,
                            gx,
                            gy,
                            rr as int,
                            k as int + 1,
                            cx2,
                            cy2,
                        )) by {
                            if cx2 == cx as int && cy2 == cy as int {
                                assert(self@.pixels[cy2][cx2] == !on);
                            } else {
                                assert(self@.pixels[cy2][cx2] == old_pix[cy2][cx2]);
                                assert(draw_covers_partial(
                                    pre,
                                    gx,
                                    gy,
                                    rr as int,
                                    k as int + 1,
                                    cx2,
                                    cy2,
                                ) == draw_covers_partial(
                                    pre,
                                    gx,
                                    gy,
                                    rr as int,
                                    k as int,
                                    cx2,
                                    cy2,
                                ));
                            }
                        };
                        if on {
                            assert(partial_collision(pre, gx, gy, rr as int, k as int + 1));
                        } else {
                            if old_col {
                                let (wx, wy) = choose|wx: int, wy: int|
                                    0 <= wx < 64 && 0 <= wy < 32 && draw_covers_partial(
                                        pre,
                                        gx,
                                        gy,
                                        rr as int,
                                        k as int,
                                        wx,
                                        wy,
                                    ) && pre.pixels[wy][wx];
                                assert(draw_covers_partial(
                                    pre,
                                    gx,
                                    gy,
                                    rr as int,
                                    k as int + 1,
                                    wx,
                                    wy,
                                ));
                                assert(partial_collision(pre, gx, gy, rr as int, k as int + 1));
                            } else {
                                if partial_collision(pre, gx, gy, rr as int, k as int + 1) {
                                    let (wx, wy) = choose|wx: int, wy: int|
                                        0 <= wx < 64 && 0 <= wy < 32 && draw_covers_partial(
                                            pre,
                                            gx,
                                            gy,
                                            rr as int,
                                            k as int + 1,
                                            wx,
                                            wy,
                                        ) && pre.pixels[wy][wx];
                                    if draw_covers_partial(
                                        pre,
                                        gx,
                                        gy,
                                        rr as int,
                                        k as int,
                                        wx,
                                        wy,
                                    ) {
                                        assert(partial_collision(pre, gx, gy, rr as int, k as int));
                                        assert(false);
                                    } else {
                                        assert(wx == cx as int && wy == cy as int);
                                        assert(false);
                                    }
                                }
                            }
                            assert(collision == partial_collision(
                                pre,
                                gx,
                                gy,
                                rr as int,
                                k as int + 1,
                            ));
                        }
                    }
                } else {
                    proof {
                        assert forall|cx2: int, cy2: int|
                            0 <= cx2 < 64 && 0 <= cy2 < 32 implies (
                        #[trigger] self@.pixels[cy2][cx2]) == (pre.pixels[cy2][cx2]
                            != draw_covers_partial(
                            pre,
                            gx,
                            gy,
                            rr as int,
                            k as int + 1,
                            cx2,
                            cy2,
                        )) by {
                            assert(draw_covers_partial(
                                pre,
                                gx,
                                gy,
                                rr as int,
                                k as int + 1,
                                cx2,
                                cy2,
                            ) == draw_covers_partial(pre, gx, gy, rr as int, k as int, cx2, cy2));
                        };
                        lemma_partial_collision_eq(
                            pre,
                            gx,
                            gy,
                            rr as int,
                            k as int,
                            rr as int,
                            k as int + 1,
                        );
                    }
                }
                k += 1;
            }
            proof {
                assert forall|cx2: int, cy2: int|
                    0 <= cx2 < 64 && 0 <= cy2 < 32 implies #[trigger] draw_covers_partial(
                    pre,
                    gx,
                    gy,
                    rr as int,
                    k as int,
                    cx2,
                    cy2,
                ) == draw_covers_partial(pre, gx, gy, rr as int + 1, 0, cx2, cy2) by {
                    assert(draw_covers_partial(pre, gx, gy, rr as int + 1, 0, cx2, cy2)
                        == draw_covers(pre, gx, gy, rr as int + 1, cx2, cy2));
                };
                lemma_partial_collision_eq(
                    pre,
                    gx,
                    gy,
                    rr as int,
                    k as int,
                    rr as int + 1,
                    0,
                );
            }
            rr += 1;
        }
        if collision {
            self.registers[15] = 1;
        }
        proof {
            assert forall|cx2: int, cy2: int|
                0 <= cx2 < 64 && 0 <= cy2 < 32 implies #[trigger] draw_covers(
                pre,
                gx,
                gy,
                rr as int,
                cx2,
                cy2,
            ) == draw_covers(pre, gx, gy, n as int, cx2, cy2) by {};
            assert forall|cx2: int, cy2: int|
                0 <= cx2 < 64 && 0 <= cy2 < 32 implies #[trigger] draw_covers_partial(
                pre,
                gx,
                gy,
                rr as int,
                0,
                cx2,
                cy2,
            ) == draw_covers_partial(pre, gx, gy, n as int, 0, cx2, cy2) by {};
            lemma_partial_collision_eq(pre, gx, gy, rr as int, 0, n as int, 0);
            lemma_draw_collision_partial(pre, gx, gy, n as int);
            assert(collision == draw_collision(pre, gx, gy, n as int));
            assert forall|cy2: int| 0 <= cy2 < 32 implies self@.pixels[cy2] =~= draw_pixels(
                pre,
                gx,
                gy,
                n as int,
            )[cy2] by {
                assert forall|cx2: int| 0 <= cx2 < 64 implies self@.pixels[cy2][cx2]
                    == draw_pixels(pre, gx, gy, n as int)[cy2][cx2] by {
                    assert(self@.pixels[cy2][cx2] == (pre.pixels[cy2][cx2] != draw_covers(
                        pre,
                        gx,
                        gy,
                        rr as int,
                        cx2,
                        cy2,
                    )));
                };
            };
            assert(self@.pixels =~~= draw_pixels(pre, gx, gy, n as int));
            if collision {
                assert(self@.regs =~= pre.regs.update(15, 1u8));
            } else {
                assert(self@.regs =~= pre.regs.update(15, 0u8));
            }
            assert(self@ =~~= (State {
                pixels: draw_pixels(pre, gx, gy, n as int),
                regs: pre.regs.update(
                    15,
                    if draw_collision(pre, gx, gy, n as int) {
                        1u8
                    } else {
                        0u8
                    },
                ),
                ..pre
            }));
        }
        Ok(())
    }

    /// BCD conversion: the decimal digits of `Vx` written to memory at the
    /// index register.
    fn bcd(&mut self, x: usize) -> (r: Result<(), VmError>)
        requires
            old(self)@.wf(),
            x < 16,
        ensures
            final(self)@.wf(),
            ({
                let pre = old(self)@;
                let v = pre.regs[x as int];
                match r {
                    Ok(()) => pre.index + 3 <= RAM_SIZE && final(self)@ == (State {
                        ram: pre.ram.update(pre.index, (v / 100) as u8).update(
                            pre.index + 1,
                            ((v % 100) / 10) as u8,
                        ).update(pre.index + 2, (v % 10) as u8),
                        ..pre
                    }),
                    Err(e) => pre.index + 3 > RAM_SIZE && e == VmError::OutOfRangeMemory && final(self)@ == pre,
                }
            }),
    {
        if self.i + 3 > RAM_SIZE {
            return Err(VmError::OutOfRangeMemory);
        }
        let ghost pre = self@;
        let v = self.registers[x];
        self.ram[self.i] = v / 100;
        self.ram[self.i + 1] = (v % 100) / 10;
        self.ram[self.i + 2] = v % 10;
        proof {
            assert(self@ =~~= (State {
                ram: pre.ram.update(pre.index, (v / 100) as u8).update(
                    pre.index + 1,
                    ((v % 100) / 10) as u8,
                ).update(pre.index + 2, (v % 10) as u8),
                ..pre
            }));
        }
        Ok(())
    }

    /// Register block store: `V0..=Vx` copied to memory starting at the
    /// index register, which is itself unchanged.
    fn store_registers(&mut self, x: usize) -> (r: Result<(), VmError>)
        requires
            old(self)@.wf(),
            x < 16,
        ensures
            final(self)@.wf(),
            ({
                let pre = old(self)@;
                match r {
                    Ok(()) => pre.index + x + 1 <= RAM_SIZE && final(self)@ == (State {
                        ram: overlay(pre.ram, pre.index, pre.regs.subrange(0, x + 1)),
                        ..pre
                    }),
                    Err(e) => pre.index + x + 1 > RAM_SIZE && e == VmError::OutOfRangeMemory
                        && final(self)@ == pre,
                }
            }),
    {
        if self.i + x + 1 > RAM_SIZE {
            return Err(VmError::OutOfRangeMemory);
        }
        let ghost pre = self@;
        let mut j: usize = 0;
        while j < x + 1
            invariant
                pre.wf(),
                x < 16,
                j <= x + 1,
                pre.index + x + 1 <= RAM_SIZE,
                self@.wf(),
                self@ == (State { ram: self@.ram, ..pre }),
                forall|a: int|
                    0 <= a < RAM_SIZE && !(pre.index <= a < pre.index + j)
                        ==> self@.ram[a] == pre.ram[a],
                forall|a: int|
                    pre.index <= a < pre.index + j ==> self@.ram[a] == pre.regs[a - pre.index],
            decreases x + 1 - j,
        {
            self.ram[self.i + j] = self.registers[j];
            j += 1;
        }
        proof {
            assert(self@.ram =~= overlay(pre.ram, pre.index, pre.regs.subrange(0, x + 1)));
            assert(self@ =~~= (State {
                ram: overlay(pre.ram, pre.index, pre.regs.subrange(0, x + 1)),
                ..pre
            }));
        }
        Ok(())
    }

    /// Register block load: `V0..=Vx` filled from memory starting at the
    /// index register, which is itself unchanged.
    fn load_registers(&mut self, x: usize) -> (r: Result<(), VmError>)
        requires
            old(self)@.wf(),
            x < 16,
        ensures
            final(self)@.wf(),
            ({
                let pre = old(self)@;
                match r {
                    Ok(()) => pre.index + x + 1 <= RAM_SIZE && final(self)@ == (State {
                        regs: overlay(
                            pre.regs,
                            0,
                            pre.ram.subrange(pre.index, pre.index + x + 1),
                        ),
                        ..pre
                    }),
                    Err(e) => pre.index + x + 1 > RAM_SIZE && e == VmError::OutOfRangeMemory
                        && final(self)@ == pre,
                }
            }),
    {
        if self.i + x + 1 > RAM_SIZE {
            return Err(VmError::OutOfRangeMemory);
        }
        let ghost pre = self@;
        let mut j: usize = 0;
        while j < x + 1
            invariant
                pre.wf(),
                x < 16,
                j <= x + 1,
                pre.index + x + 1 <= RAM_SIZE,
                self@.wf(),
                self@ == (State { regs: self@.regs, ..pre }),
                forall|a: int| j <= a < 16 ==> self@.regs[a] == pre.regs[a],
                forall|a: int| 0 <= a < j ==> self@.regs[a] == pre.ram[pre.index + a],
            decreases x + 1 - j,
        {
            self.registers[j] = self.ram[self.i + j];
            j += 1;
        }
        proof {
            assert(self@.regs =~= overlay(
                pre.regs,
                0,
                pre.ram.subrange(pre.index, pre.index + x + 1),
            ));
            assert(self@ =~~= (State {
                regs: overlay(pre.regs, 0, pre.ram.subrange(pre.index, pre.index + x + 1)),
                ..pre
            }));
        }
        Ok(())
    }

    /// Fetches the two opcode bytes at the program counter and decodes them.
    ///
    /// Fails with an out-of-range error when the counter no longer addresses
    /// two bytes of memory, and with a decode error when the bytes are not in
    /// the decode table.
    fn fetch_and_decode_next_instruction(&self) -> (r: Result<Instruction, VmError>)
        requires
            self@.wf(),
        ensures
            match r {
                Ok(inst) => {
                    &&& self@.pc + 1 < RAM_SIZE
                    &&& spec_decode(self@.ram[self@.pc], self@.ram[self@.pc + 1]) == Some(inst)
                    &&& inst.wf()
                },
                Err(e) => (self@.pc + 1 >= RAM_SIZE && e == VmError::OutOfRangeMemory) || (
                self@.pc + 1 < RAM_SIZE && spec_decode(
                    self@.ram[self@.pc],
                    self@.ram[self@.pc + 1],
                ) is None && e == VmError::UnknownOpcode),
            },
    {
        if self.pc + 1 >= RAM_SIZE {
            return Err(VmError::OutOfRangeMemory);
        }
        let b1 = self.ram[self.pc];
        let b2 = self.ram[self.pc + 1];
        Instruction::new(b1, b2)
    }

    /// One external 60 Hz tick: decrements both timers once (saturating),
    /// then runs `clock / 60` fetch-decode-execute cycles.  A machine waiting
    /// for a key consumes no cycles but its timers still count down.  After
    /// every cycle the beeping flag is synchronized with the sound timer,
    /// invoking the audio capability exactly on the edges.
    ///
    /// On a fatal error the machine stops mid-tick and the error is surfaced;
    /// the state is exactly the one the failing cycle saw.
    pub fn tick<G: Graphics, A: Audio>(&mut self, graphics: &mut G, audio: &mut A) -> (r: Result<
        (),
        VmError,
    >)
        requires
            old(self)@.wf(),
        ensures
            final(self)@.wf(),
            match r {
                Ok(()) => run_cycles(
                    timers_decremented(old(self)@),
                    final(self)@,
                    (old(self)@.clock / 60) as nat,
                ),
                Err(e) => exists|j: nat, mid: State|
                    {
                        &&& j < (old(self)@.clock / 60) as nat
                        &&& run_cycles(timers_decremented(old(self)@), mid, j)
                        &&& cycle_err(mid) == Some(e)
                        &&& final(self)@ == mid
                    },
            },
    {
        self.decrease_timers();
        let ghost pre1 = self@;
        let count: u64 = self.clock / FPS;
        let mut it: u64 = 0;
        while it < count
            invariant
                pre1.wf(),
                pre1 == timers_decremented(old(self)@),
                self@.wf(),
                it <= count,
                count == pre1.clock / 60,
                old(self)@.clock == pre1.clock,
                run_cycles(pre1, self@, it as nat),
            decreases count - it,
        {
            let ghost prev = self@;
            if self.waiting_for_input.is_some() {
                proof {
                    assert(cycle_ok(prev, prev));
                    assert(run_cycles(pre1, self@, (it + 1) as nat));
                }
            } else {
                let inst = match self.fetch_and_decode_next_instruction() {
                    Ok(inst) => inst,
                    Err(e) => {
                        proof {
                            assert(cycle_err(prev) == Some(e));
                            assert(run_cycles(timers_decremented(old(self)@), prev, it as nat));
                        }
                        return Err(e);
                    },
                };
                match self.execute_instruction(inst, graphics) {
                    Ok(()) => {},
                    Err(e) => {
                        proof {
                            assert(cycle_err(prev) == Some(e));
                            assert(run_cycles(timers_decremented(old(self)@), prev, it as nat));
                        }
                        return Err(e);
                    },
                }
                let ghost mid = self@;
                let inc = inst.requires_pc_inc();
                self.pc = self.pc + inc;
                if self.sound_timer > 0 && !self.beeping {
                    audio.start_beep();
                    self.beeping = true;
                } else if self.sound_timer == 0 && self.beeping {
                    audio.stop_beep();
                    self.beeping = false;
                }
                proof {
                    assert(self@ =~~= beep_synced(advanced(mid, inst)));
                    assert(cycle_ok(prev, self@));
                    assert(run_cycles(pre1, self@, (it + 1) as nat));
                }
            }
            it += 1;
        }
        proof {
            assert(run_cycles(
                timers_decremented(old(self)@),
                self@,
                (old(self)@.clock / 60) as nat,
            ));
        }
        Ok(())
    }

    /// Executes one decoded instruction against the machine state, driving
    /// the graphics capability for the clear-screen and sprite-draw
    /// instructions.
    ///
    /// The instruction is the one fetched at the current program counter, so
    /// the counter still addresses it; the generic advance is applied
    /// afterwards by the tick.  Fails exactly when the step relation says so:
    /// on stack underflow or an out-of-range memory access, leaving the state
    /// unchanged.
    pub fn execute_instruction<G: Graphics>(&mut self, inst: Instruction, graphics: &mut G) -> (r:
        Result<(), VmError>)
        requires
            old(self)@.wf(),
            inst.wf(),
            old(self)@.pc + 1 < RAM_SIZE,
        ensures
            final(self)@.wf(),
            final(self)@.pc <= RAM_SIZE,
            match r {
                Ok(()) => step_err(old(self)@, inst) is None && step_ok(
                    old(self)@,
                    inst,
                    final(self)@,
                ),
                Err(e) => step_err(old(self)@, inst) == Some(e) && final(self)@ == old(self)@,
            },
    {
        let ghost pre = self@;
        match inst {
            Instruction::Cls00E0 => {
                self.cls(graphics);
                Ok(())
            },
            Instruction::SetIndexRegisterANNN(nnn) => {
                self.i = nnn;
                Ok(())
            },
            Instruction::SetVRegister6XNN(x, nn) => {
                self.registers[x] = nn;
                Ok(())
            },
            Instruction::Dxyn(x, y, n) => self.draw_sprite(x, y, n, graphics),
            Instruction::Add7XNN(x, nn) => {
                let vx = self.registers[x];
                let sum: u16 = vx as u16 + nn as u16;
                self.registers[x] = (sum % 256) as u8;
                Ok(())
            },
            Instruction::Jump1NNN(nnn) => {
                self.pc = nnn as usize;
                Ok(())
            },
            Instruction::SubroutineCall2NNN(nnn) => {
                self.stack.push(self.pc);
                self.pc = nnn as usize;
                proof {
                    assert(self@.stack =~= pre.stack.push(pre.pc));
                    assert(self@ =~~= (State {
                        stack: pre.stack.push(pre.pc),
                        pc: nnn as int,
                        ..pre
                    }));
                }
                Ok(())
            },
            Instruction::SubroutineReturn00EE => {
                match self.stack.pop() {
                    Some(v) => {
                        self.pc = v;
                        proof {
                            assert(self@.stack =~= pre.stack.drop_last());
                            assert(v as int == pre.stack.last());
                            assert(self@ =~~= (State {
                                stack: pre.stack.drop_last(),
                                pc: pre.stack.last(),
                                ..pre
                            }));
                        }
                        Ok(())
                    },
                    None => {
                        proof {
                            assert(self@.stack =~= pre.stack);
                            assert(self@ =~~= pre);
                        }
                        Err(VmError::StackUnderflow)
                    },
                }
            },
            Instruction::SkipEqual3XNN(x, nn) => {
                if self.registers[x] == nn {
                    self.pc = self.pc + 2;
                }
                Ok(())
            },
            Instruction::SkipNotEqual4XNN(x, nn) => {
                if self.registers[x] != nn {
                    self.pc = self.pc + 2;
                }
                Ok(())
            },
            Instruction::BinaryCodedDecimalConversionFX33(x) => self.bcd(x),
            Instruction::FontCharacterFX29(x) => {
                self.i = FONT_ADDR + (self.registers[x] as usize) * FONT_SIZE;
                Ok(())
            },
            Instruction::SetDelayTimerFX15(x) => {
                self.delay_timer = self.registers[x];
                Ok(())
            },
            Instruction::ReadDelayTimerFX07(x) => {
                self.registers[x] = self.delay_timer;
                Ok(())
            },
            Instruction::GetKeyFX0A(x) => {
                self.waiting_for_input = Some(x);
                Ok(())
            },
            Instruction::SetSoundTimerFX18(x) => {
                self.sound_timer = self.registers[x];
                Ok(())
            },
            Instruction::AddToIndexFX1E(x) => {
                let vx = self.registers[x];
                let sum: usize = self.i + vx as usize;
                if sum > 0xFFF {
                    self.registers[15] = 1;
                }
                self.i = sum % 0x10000;
                Ok(())
            },
            Instruction::StoreRegistersToMemoryFX55(x) => self.store_registers(x),
            Instruction::LoadRegistersFromMemoryFX65(x) => self.load_registers(x),
            Instruction::RandomCXNN(x, nn) => {
                let rb = random_byte();
                let masked = rb & nn;
                proof {
                    assert((rb & nn) & nn == rb & nn) by (bit_vector);
                }
                self.registers[x] = masked;
                Ok(())
            },
            Instruction::SkipIfKeyPressedEX9E(x) => {
                let vx = self.registers[x];
                let pressed = match self.key_pressed {
                    Some(kp) => kp == vx,
                    None => false,
                };
                if pressed {
                    self.pc = self.pc + 2;
                }
                Ok(())
            },
            Instruction::SkipIfKeyNotPressedEXA1(x) => {
                let vx = self.registers[x];
                let pressed = match self.key_pressed {
                    Some(kp) => kp == vx,
                    None => false,
                };
                if !pressed {
                    self.pc = self.pc + 2;
                }
                Ok(())
            },
            Instruction::BinaryAnd8XY2(x, y) => {
                let vy = self.registers[y];
                let vx = self.registers[x];
                self.registers[x] = vx & vy;
                Ok(())
            },
            Instruction::RegisterAdd8XY4(x, y) => {
                let vx = self.registers[x];
                let vy = self.registers[y];
                let sum: u16 = vx as u16 + vy as u16;
                self.registers[x] = (sum % 256) as u8;
                self.registers[15] = if sum > 255 {
                    1
                } else {
                    0
                };
                Ok(())
            },
            Instruction::RegisterSet8XY0(x, y) => {
                let vy = self.registers[y];
                self.registers[x] = vy;
                Ok(())
            },
            Instruction::RegisterSub8XY5(x, y) => {
                let vx = self.registers[x];
                let vy = self.registers[y];
                let res: u8 = if vx >= vy {
                    vx - vy
                } else {
                    ((256u16 + vx as u16) - vy as u16) as u8
                };
                proof {
                    if vx < vy {
                        assert((vx - vy) % 256 == 256 + vx - vy);
                    }
                }
                self.registers[x] = res;
                self.registers[15] = if vx >= vy {
                    1
                } else {
                    0
                };
                Ok(())
            },
            Instruction::RegisterSubRev8XY7(x, y) => {
                let vx = self.registers[x];
                let vy = self.registers[y];
                let res: u8 = if vy >= vx {
                    vy - vx
                } else {
                    ((256u16 + vy as u16) - vx as u16) as u8
                };
                proof {
                    if vy < vx {
                        assert((vy - vx) % 256 == 256 + vy - vx);
                    }
                }
                self.registers[x] = res;
                self.registers[15] = if vy >= vx {
                    1
                } else {
                    0
                };
                Ok(())
            },
            Instruction::ShiftRight8XY6(x, _y) => {
                let vx = self.registers[x];
                self.registers[15] = vx % 2;
                let cur = self.registers[x];
                self.registers[x] = cur / 2;
                Ok(())
            },
            Instruction::ShiftLeft8XYE(x, _y) => {
                let vx = self.registers[x];
                self.registers[15] = if vx >= 128 {
                    1
                } else {
                    0
                };
                let cur = self.registers[x];
                let doubled: u16 = cur as u16 * 2;
                self.registers[x] = (doubled % 256) as u8;
                Ok(())
            },
            Instruction::SkipIfEqual5XY0(x, y) => {
                if self.registers[x] == self.registers[y] {
                    self.pc = self.pc + 2;
                }
                Ok(())
            },
            Instruction::SkipIfNotEqual9XY0(x, y) => {
                if self.registers[x] != self.registers[y] {
                    self.pc = self.pc + 2;
                }
                Ok(())
            },
            Instruction::Xor8XY3(x, y) => {
                let vy = self.registers[y];
                let vx = self.registers[x];
                self.registers[x] = vx ^ vy;
                Ok(())
            },
        }
    }
}

/// Builds an all-off 64x32 framebuffer.
fn blank_screen() -> (p: Vec<Vec<bool>>)
    ensures
        p@.len() == TERMINAL_HEIGHT,
        forall|r: int| 0 <= r < TERMINAL_HEIGHT ==> (#[trigger] p@[r])@.len() == TERMINAL_WIDTH,
        forall|r: int, c: int|
            0 <= r < TERMINAL_HEIGHT && 0 <= c < TERMINAL_WIDTH ==> !(#[trigger] p@[r]@[c]),
{
    let mut pixels: Vec<Vec<bool>> = Vec::new();
    let mut row_n: usize = 0;
    while row_n < TERMINAL_HEIGHT
        invariant
            pixels@.len() == row_n,
            row_n <= TERMINAL_HEIGHT,
            forall|r: int| 0 <= r < row_n ==> (#[trigger] pixels@[r])@.len() == TERMINAL_WIDTH,
            forall|r: int, c: int|
                0 <= r < row_n && 0 <= c < TERMINAL_WIDTH ==> !(#[trigger] pixels@[r]@[c]),
        decreases TERMINAL_HEIGHT - row_n,
    {
        let mut row: Vec<bool> = Vec::new();
        let mut col: usize = 0;
        while col < TERMINAL_WIDTH
            invariant
                row@.len() == col,
                col <= TERMINAL_WIDTH,
                forall|c: int| 0 <= c < col ==> !(#[trigger] row@[c]),
            decreases TERMINAL_WIDTH - col,
        {
            row.push(false);
            col += 1;
        }
        pixels.push(row);
        row_n += 1;
    }
    pixels
}

/// Checks that a display coordinate is inside the 64x32 screen.
pub fn check_coordinates(x: usize, y: usize) -> (r: Result<(), VmError>)
    ensures
        match r {
            Ok(()) => x < TERMINAL_WIDTH && y < TERMINAL_HEIGHT,
            Err(e) => (x >= TERMINAL_WIDTH || y >= TERMINAL_HEIGHT) && e
                == VmError::OutOfRangeMemory,
        },
{
    if x >= TERMINAL_WIDTH {
        return Err(VmError::OutOfRangeMemory);
    }
    if y >= TERMINAL_HEIGHT {
        return Err(VmError::OutOfRangeMemory);
    }
    Ok(())
}

} // verus!
