//! A CHIP-8 virtual machine: memory, registers, call stack, screen, keyboard
//! and timers, and the execution of one instruction at a time.

pub mod beep;
pub mod display;
pub mod hardware;
pub mod memory;
pub mod stack;
pub mod state;
pub mod timer;

pub use display::{Screen, DISPLAY_HEIGHT, DISPLAY_WIDTH};
pub use hardware::Key;
pub use state::{Actions, ChipView, Fault};

use display::{Display, DisplayView};
use hardware::{Keyboard, KEY_COUNT};
use memory::{lemma_decode_well_formed, word_at, write_at, Instruction, Memory, MAX_MEMORY};
use rand::Rng;
use std::time::Instant;
use stack::{Stack, STACK_SIZE};
use state::{moved_index, wrapped_difference, wrapped_sum, FLAG_REGISTER, REGISTERS_COUNT};
use timer::{Delay, Sound};
use vstd::prelude::*;

verus! {

/// Where programs are loaded unless the machine is told otherwise.
pub const DEFAULT_ROM_START: u16 = 0x200;

/// The machine.
pub struct Chip {
    clock: Instant,
    v_registers: [u8; REGISTERS_COUNT],
    memory: Memory,
    delay_timer: Delay,
    sound_timer: Sound,
    stack: Stack,
    keyboard: Keyboard,
    display: Display,
}

/// Draws a byte from the thread's generator, `rand::thread_rng()`, with
/// `Rng::gen`. The byte depends on chance, so nothing is claimed of it. The
/// call fails only where the operating system cannot seed the generator.
#[verifier::external_body]
fn random_byte() -> u8 {
    rand::thread_rng().gen::<u8>()
}

/// The sum of two bytes, cut to a byte.
fn add_bytes(a: u8, b: u8) -> (sum: u8)
    ensures
        sum == wrapped_sum(a, b),
{
    a.wrapping_add(b)
}

/// The difference of two bytes, cut to a byte.
fn subtract_bytes(a: u8, b: u8) -> (difference: u8)
    ensures
        difference == wrapped_difference(a, b),
{
    a.wrapping_sub(b)
}

/// Whether some cycle takes the machine from `before` to `after` and hands
/// `actions` to the host, whatever byte it draws and whatever the time is.
pub open spec fn some_cycle(before: ChipView, after: ChipView, actions: Actions) -> bool {
    exists|random: u8, now: u128| #[trigger] before.cycle(random, now) == (after, actions)
}

impl View for Chip {
    type V = ChipView;

    closed spec fn view(&self) -> ChipView {
        ChipView {
            v: self.v_registers@,
            memory: self.memory@,
            i: self.memory.i_register,
            pc: self.memory.pc_register,
            rom_start: self.memory.rom_start,
            stack: self.stack@,
            display: self.display@,
            keyboard: self.keyboard@,
            delay: self.delay_timer@,
            sound: self.sound_timer@,
        }
    }
}

impl Default for Chip {
    /// A machine that loads its programs at 0x200.
    fn default() -> (chip: Self)
        ensures
            chip@ == ChipView::initial(DEFAULT_ROM_START),
    {
        Self::new(DEFAULT_ROM_START)
    }
}

impl Chip {
    /// Every machine is well formed.
    pub proof fn lemma_well_formed(&self)
        ensures
            self@.well_formed(),
    {
        self.stack.lemma_bounded();
        self.display.lemma_well_formed();
        self.keyboard.lemma_well_formed();
    }

    /// A machine that loads its programs at `rom_start` and starts there.
    #[must_use]
    pub fn new(rom_start: u16) -> (chip: Self)
        ensures
            chip@ == ChipView::initial(rom_start),
    {
        let chip = Self {
            clock: Instant::now(),
            v_registers: [0; REGISTERS_COUNT],
            memory: Memory::new(rom_start),
            delay_timer: Delay::default(),
            sound_timer: Sound::default(),
            stack: Stack::default(),
            keyboard: Keyboard::default(),
            display: Display::default(),
        };
        assert(chip@.v =~= ChipView::initial(rom_start).v);
        chip
    }

    /// The time on the machine's clock, in microseconds since the machine
    /// was made.
    fn now(&self) -> u128 {
        self.clock.elapsed().as_micros()
    }

    /// Draws the random byte for the instruction at the program counter, if
    /// it asks for one. For every other instruction the byte is zero.
    fn draw_byte(&self) -> (byte: u8)
        requires
            self@.pc + 1 < MAX_MEMORY,
        ensures
            self@.instruction().s != 0xC ==> byte == 0,
    {
        if self.memory.get_current_instruction().s == 0xC {
            random_byte()
        } else {
            0
        }
    }

    /// Runs one cycle: executes the instruction at the program counter,
    /// lets both timers count down, and tells the host whether to redraw
    /// and whether to beep.
    pub fn run_cycle(&mut self) -> (actions: Actions)
        requires
            old(self)@.fault() is None,
        ensures
            some_cycle(old(self)@, final(self)@, actions),
    {
        let random: u8 = self.draw_byte();
        let now: u128 = self.now();
        self.cycle_at(random, now)
    }

    /// The cycle for a given random byte and a given reading of the
    /// machine's clock.
    pub fn cycle_at(&mut self, random: u8, now: u128) -> (actions: Actions)
        requires
            old(self)@.fault() is None,
        ensures
            (final(self)@, actions) == old(self)@.cycle(random, now),
    {
        self.process_instruction(random, now);

        self.delay_timer.countdown_at(now);
        self.sound_timer.countdown_at(now);
        let beep = self.sound_timer.must_beep();
        let draw = self.display.must_draw();

        Actions { draw, beep }
    }

    /// Runs one cycle if the instruction at the program counter can be
    /// executed, and says why not if it cannot.
    pub fn step(&mut self) -> (result: Result<Actions, Fault>)
        ensures
            match result {
                Ok(actions) => old(self)@.fault() is None && some_cycle(
                    old(self)@,
                    final(self)@,
                    actions,
                ),
                Err(fault) => old(self)@.fault() == Some(fault) && final(self)@ == old(self)@,
            },
    {
        match self.fault() {
            Some(fault) => Err(fault),
            None => Ok(self.run_cycle()),
        }
    }

    /// Copies a program into memory, to where programs start.
    pub fn load_rom(&mut self, rom: &[u8])
        requires
            old(self)@.rom_start + rom@.len() <= MAX_MEMORY,
        ensures
            final(self)@ == (ChipView {
                memory: write_at(old(self)@.memory, old(self)@.rom_start as int, rom@),
                ..old(self)@
            }),
    {
        self.memory.load_rom(rom);
    }

    /// Where programs are loaded.
    pub fn rom_start(&self) -> (start: u16)
        ensures
            start == self@.rom_start,
    {
        self.memory.rom_start
    }

    /// The registers `v0` to `vF`.
    pub fn registers(&self) -> (registers: &[u8; REGISTERS_COUNT])
        ensures
            registers@ == self@.v,
    {
        &self.v_registers
    }

    /// The memory with the index register and the program counter.
    pub fn memory(&self) -> (memory: &Memory)
        ensures
            memory@ == self@.memory,
            memory.i_register == self@.i,
            memory.pc_register == self@.pc,
            memory.rom_start == self@.rom_start,
    {
        &self.memory
    }

    /// The value of the delay timer.
    pub fn delay(&self) -> (remaining: u8)
        ensures
            remaining == self@.delay.remaining,
    {
        self.delay_timer.get_remaining()
    }

    /// The value of the sound timer.
    pub fn sound(&self) -> (remaining: u8)
        ensures
            remaining == self@.sound.timer.remaining,
    {
        self.sound_timer.get_remaining()
    }

    /// How many return addresses are on the call stack.
    pub fn stack_depth(&self) -> (depth: usize)
        ensures
            depth == self@.stack.len(),
    {
        self.stack.len()
    }

    /// Whether the machine waits for a key.
    pub fn is_waiting(&self) -> (waiting: bool)
        ensures
            waiting == self@.keyboard.waiting,
    {
        self.keyboard.is_waiting()
    }

    /// The framebuffer as it stands.
    #[must_use]
    pub fn screen(&self) -> (screen: &Screen)
        ensures
            display::screen_pixels(*screen) == self@.display.pixels,
    {
        self.display.screen()
    }

    /// Tells the machine that `key` went down.
    pub fn press_key(&mut self, key: Key)
        ensures
            final(self)@ == (ChipView {
                keyboard: old(self)@.keyboard.press(key.digit()),
                ..old(self)@
            }),
    {
        self.keyboard.press_key(key);
    }

    /// Tells the machine that `key` came up.
    pub fn unpress_key(&mut self, key: Key)
        ensures
            final(self)@ == (ChipView {
                keyboard: old(self)@.keyboard.unpress(key.digit()),
                ..old(self)@
            }),
    {
        self.keyboard.unpress_key(key);
    }

    /// Why the instruction at the program counter cannot be executed, if
    /// it cannot.
    pub fn fault(&self) -> (fault: Option<Fault>)
        ensures
            fault == self@.fault(),
    {
        if self.memory.pc_register as usize + 1 >= MAX_MEMORY {
            return Some(Fault::OutOfBounds);
        }
        let instruction = self.memory.get_current_instruction();
        proof {
            lemma_decode_well_formed(word_at(self.memory@, self.memory.pc_register as int));
        }
        let v_x: u8 = self.v_registers[instruction.x];
        let i: usize = self.memory.i_register as usize;
        match instruction.get_nibbles() {
            (0x0, 0x0, 0xE, 0x0) => None,
            (0x0, 0x0, 0xE, 0xE) => if self.stack.len() == 0 {
                Some(Fault::StackUnderflow)
            } else {
                None
            },
            (0x0, _, _, _) => None,
            (0x1, _, _, _) => None,
            (0x2, _, _, _) => if self.stack.len() >= STACK_SIZE {
                Some(Fault::StackOverflow)
            } else {
                None
            },
            (0x3, _, _, _) => None,
            (0x4, _, _, _) => None,
            (0x5, _, _, 0x0) => None,
            (0x6, _, _, _) => None,
            (0x7, _, _, _) => None,
            (0x8, _, _, 0x0) => None,
            (0x8, _, _, 0x1) => None,
            (0x8, _, _, 0x2) => None,
            (0x8, _, _, 0x3) => None,
            (0x8, _, _, 0x4) => None,
            (0x8, _, _, 0x5) => None,
            (0x8, _, _, 0x6) => None,
            (0x8, _, _, 0x7) => None,
            (0x8, _, _, 0xE) => None,
            (0x9, _, _, 0x0) => None,
            (0xA, _, _, _) => None,
            (0xB, _, _, _) => None,
            (0xC, _, _, _) => None,
            (0xD, _, _, _) => if i + instruction.n as usize > MAX_MEMORY {
                Some(Fault::OutOfBounds)
            } else {
                None
            },
            (0xE, _, 0x9, 0xE) => if v_x as usize >= KEY_COUNT {
                Some(Fault::InvalidKey)
            } else {
                None
            },
            (0xE, _, 0xA, 0x1) => if v_x as usize >= KEY_COUNT {
                Some(Fault::InvalidKey)
            } else {
                None
            },
            (0xF, _, 0x0, 0x7) => None,
            (0xF, _, 0x0, 0xA) => None,
            (0xF, _, 0x1, 0x5) => None,
            (0xF, _, 0x1, 0x8) => None,
            (0xF, _, 0x1, 0xE) => None,
            (0xF, _, 0x2, 0x9) => if v_x > 0xF {
                Some(Fault::InvalidSprite)
            } else {
                None
            },
            (0xF, _, 0x3, 0x3) => if i + 3 > MAX_MEMORY {
                Some(Fault::OutOfBounds)
            } else {
                None
            },
            (0xF, _, 0x5, 0x5) => if i + instruction.x + 1 > MAX_MEMORY {
                Some(Fault::OutOfBounds)
            } else {
                None
            },
            (0xF, _, 0x6, 0x5) => if i + instruction.x + 1 > MAX_MEMORY {
                Some(Fault::OutOfBounds)
            } else {
                None
            },
            _ => Some(Fault::UnknownInstruction),
        }
    }

    /// Executes the instruction at the program counter. `random` is the
    /// byte that the instruction gets if it asks for a random one, `now`
    /// the time on the machine's clock.
    pub fn process_instruction(&mut self, random: u8, now: u128)
        requires
            old(self)@.fault() is None,
        ensures
            final(self)@ == old(self)@.execute(random, now),
    {
        let instruction = self.memory.get_current_instruction();
        proof {
            lemma_decode_well_formed(word_at(self.memory@, self.memory.pc_register as int));
        }
        let jump = self.apply(instruction, random, now);
        if !self.keyboard.is_waiting() && !jump {
            self.memory.increase_pc();
        }
    }

    /// Does what `instruction` says, short of advancing the program
    /// counter, and tells whether the instruction set the counter itself.
    fn apply(&mut self, instruction: Instruction, random: u8, now: u128) -> (jump: bool)
        requires
            instruction.well_formed(),
            old(self)@.fault_in(instruction) is None,
        ensures
            final(self)@ == old(self)@.apply(instruction, random, now),
            jump == ChipView::jumps(instruction),
    {
        let nibbles = instruction.get_nibbles();

        let v_x: u8 = self.v_registers[instruction.x];
        let v_y: u8 = self.v_registers[instruction.y];

        let mut jump = false;

        match nibbles {
            // 00E0 - CLS
            (0x0, 0x0, 0xE, 0x0) => self.clear_screen(),
            // 00EE - RET
            (0x0, 0x0, 0xE, 0xE) => self.return_from_call(),
            // 0nnn - SYS addr - Ignored
            (0x0, _, _, _) => (),
            // 1nnn - JP addr
            (0x1, _, _, _) => {
                self.jump_to(instruction.nnn);
                jump = true;
            },
            // 2nnn - CALL addr
            (0x2, _, _, _) => {
                self.call(instruction.nnn);
                jump = true;
            },
            // 3xkk - SE Vx, byte
            (0x3, _, _, _) => self.skip_if(v_x == instruction.kk),
            // 4xkk - SNE Vx, byte
            (0x4, _, _, _) => self.skip_if(v_x != instruction.kk),
            // 5xy0 - SE Vx, Vy
            (0x5, _, _, 0x0) => self.skip_if(v_x == v_y),
            // 6xkk - LD Vx, byte
            (0x6, _, _, _) => self.set_register(instruction.x, instruction.kk),
            // 7xkk - ADD Vx, byte
            (0x7, _, _, _) => self.set_register(instruction.x, add_bytes(v_x, instruction.kk)),
            // 8xy0 - LD Vx, Vy
            (0x8, _, _, 0x0) => self.set_register(instruction.x, v_y),
            // 8xy1 - OR Vx, Vy
            (0x8, _, _, 0x1) => self.set_register(instruction.x, v_x | v_y),
            // 8xy2 - AND Vx, Vy
            (0x8, _, _, 0x2) => self.set_register(instruction.x, v_x & v_y),
            // 8xy3 - XOR Vx, Vy
            (0x8, _, _, 0x3) => self.set_register(instruction.x, v_x ^ v_y),
            // 8xy4 - ADD Vx, Vy
            (0x8, _, _, 0x4) => {
                self.set_flag(v_x as u16 + v_y as u16 > 255);
                self.set_register(instruction.x, add_bytes(v_x, v_y));
            },
            // 8xy5 - SUB Vx, Vy
            (0x8, _, _, 0x5) => {
                self.set_flag(v_x > v_y);
                self.set_register(instruction.x, subtract_bytes(v_x, v_y));
            },
            // 8xy6 - SHR Vx {, Vy}
            (0x8, _, _, 0x6) => {
                self.set_flag(v_x & 0x01 == 1);
                self.set_register(instruction.x, v_x >> 1);
            },
            // 8xy7 - SUBN Vx, Vy
            (0x8, _, _, 0x7) => {
                self.set_flag(v_y > v_x);
                self.set_register(instruction.x, subtract_bytes(v_y, v_x));
            },
            // 8xyE - SHL Vx {, Vy}
            (0x8, _, _, 0xE) => {
                self.set_flag(v_x >> 7 == 1);
                self.set_register(instruction.x, v_x << 1);
            },
            // 9xy0 - SNE Vx, Vy
            (0x9, _, _, 0x0) => self.skip_if(v_x != v_y),
            // Annn - LD I, addr
            (0xA, _, _, _) => self.set_index(instruction.nnn),
            // Bnnn - JP V0, addr
            (0xB, _, _, _) => {
                self.jump_to(instruction.nnn + self.v_registers[0x0] as u16);
                jump = true;
            },
            // Cxkk - RND Vx, byte
            (0xC, _, _, _) => self.set_register(instruction.x, random & instruction.kk),
            // Dxyn - DRW Vx, Vy, nibble
            (0xD, _, _, _) => self.draw(instruction.n, v_x, v_y),
            // Ex9E - SKP Vx
            (0xE, _, 0x9, 0xE) => {
                let pressed = self.keyboard.is_key_pressed(v_x);
                self.skip_if(pressed);
            },
            // ExA1 - SKNP Vx
            (0xE, _, 0xA, 0x1) => {
                let pressed = self.keyboard.is_key_pressed(v_x);
                self.skip_if(!pressed);
            },
            // Fx07 - LD Vx, DT
            (0xF, _, 0x0, 0x7) => {
                let remaining: u8 = self.delay_timer.get_remaining();
                self.set_register(instruction.x, remaining);
            },
            // Fx0A - LD Vx, K
            (0xF, _, 0x0, 0xA) => self.wait_for_key(instruction.x),
            // Fx15 - LD DT, Vx
            (0xF, _, 0x1, 0x5) => self.delay_timer.set_time_at(v_x, now),
            // Fx18 - LD ST, Vx
            (0xF, _, 0x1, 0x8) => self.sound_timer.set_time_at(v_x, now),
            // Fx1E - ADD I, Vx
            (0xF, _, 0x1, 0xE) => self.move_index(v_x),
            // Fx29 - LD F, Vx
            (0xF, _, 0x2, 0x9) => self.point_at_digit(v_x),
            // Fx33 - LD B, Vx
            (0xF, _, 0x3, 0x3) => self.store_decimal(v_x),
            // Fx55 - LD [I], Vx
            (0xF, _, 0x5, 0x5) => self.store_registers(instruction.x),
            // Fx65 - LD Vx, [I]
            (0xF, _, 0x6, 0x5) => self.load_registers(instruction.x),
            _ => (),
        };
        jump
    }

    /// Puts 1 in the flag register if `condition` holds, else 0.
    #[inline]
    fn set_flag(&mut self, condition: bool)
        ensures
            final(self)@ == old(self)@.with_flag(condition),
    {
        self.v_registers[FLAG_REGISTER] = if condition {
            1
        } else {
            0
        };
    }

    /// Puts `value` in register `x`.
    #[inline]
    fn set_register(&mut self, x: usize, value: u8)
        requires
            x < REGISTERS_COUNT,
        ensures
            final(self)@ == old(self)@.with_register(x as int, value),
    {
        self.v_registers[x] = value;
    }

    /// Puts `value` in the index register.
    #[inline]
    fn set_index(&mut self, value: u16)
        ensures
            final(self)@ == (ChipView { i: value, ..old(self)@ }),
    {
        self.memory.i_register = value;
    }

    /// Moves the index register on by `offset`.
    #[inline]
    fn move_index(&mut self, offset: u8)
        ensures
            final(self)@ == (ChipView { i: moved_index(old(self)@.i, offset), ..old(self)@ }),
    {
        self.memory.i_register = self.memory.i_register.wrapping_add(offset as u16);
    }

    /// Skips the next instruction if `condition` holds.
    #[inline]
    fn skip_if(&mut self, condition: bool)
        ensures
            final(self)@ == old(self)@.skip_if(condition),
    {
        if condition {
            self.memory.increase_pc();
        }
    }

    /// Goes on at `address`.
    #[inline]
    fn jump_to(&mut self, address: u16)
        ensures
            final(self)@ == (ChipView { pc: address, ..old(self)@ }),
    {
        self.memory.pc_register = address;
    }

    /// Remembers the address of the instruction at hand and goes on at
    /// `address`.
    fn call(&mut self, address: u16)
        requires
            old(self)@.stack.len() < STACK_SIZE,
        ensures
            final(self)@ == (ChipView {
                pc: address,
                stack: old(self)@.stack.push(old(self)@.pc),
                ..old(self)@
            }),
    {
        self.stack.push(self.memory.pc_register);
        self.memory.pc_register = address;
    }

    /// Goes back to the call whose address was remembered last.
    fn return_from_call(&mut self)
        requires
            old(self)@.stack.len() > 0,
        ensures
            final(self)@ == (ChipView {
                pc: old(self)@.stack.last(),
                stack: old(self)@.stack.drop_last(),
                ..old(self)@
            }),
    {
        self.memory.pc_register = self.stack.pop();
    }

    /// Turns every pixel off.
    fn clear_screen(&mut self)
        ensures
            final(self)@ == (ChipView {
                display: DisplayView { pixels: display::blank(), must_draw: true },
                ..old(self)@
            }),
    {
        self.display.clear();
    }

    /// Draws the `n` bytes that the index register points at as a sprite at
    /// `(x, y)` and sets the flag register if it struck a lit pixel.
    fn draw(&mut self, n: u8, x: u8, y: u8)
        requires
            n <= display::MAX_SPRITE_ROWS,
            old(self)@.i + n <= MAX_MEMORY,
        ensures
            final(self)@ == ({
                let sprite = old(self)@.memory.subrange(old(self)@.i as int, old(self)@.i + n);
                ChipView {
                    display: DisplayView {
                        pixels: display::draw(old(self)@.display.pixels, sprite, x, y),
                        must_draw: true,
                    },
                    ..old(self)@
                }.with_flag(display::collides(old(self)@.display.pixels, sprite, x, y))
            }),
    {
        let sprite = self.memory.get_bytes(n);
        let collision = self.display.draw_sprite(sprite, x, y);
        self.set_flag(collision);
    }

    /// Asks the keyboard for the next key and puts it in register `x` if
    /// there is one.
    fn wait_for_key(&mut self, x: usize)
        requires
            x < REGISTERS_COUNT,
        ensures
            final(self)@ == ({
                let asked = ChipView { keyboard: old(self)@.keyboard.request(), ..old(self)@ };
                match old(self)@.keyboard.requested_key() {
                    Some(key) => asked.with_register(x as int, key),
                    None => asked,
                }
            }),
    {
        if let Some(key) = self.keyboard.get_key() {
            self.v_registers[x] = key;
        }
    }

    /// Points the index register at the font's sprite of `digit`.
    fn point_at_digit(&mut self, digit: u8)
        requires
            digit <= 0xF,
        ensures
            final(self)@ == (ChipView {
                i: (digit * memory::DEFAULT_SPRITE_SIZE) as u16,
                ..old(self)@
            }),
    {
        self.memory.load_default_sprite(digit);
    }

    /// Stores the three decimal digits of `value` where the index register
    /// points.
    fn store_decimal(&mut self, value: u8)
        requires
            old(self)@.i + 3 <= MAX_MEMORY,
        ensures
            final(self)@ == (ChipView {
                memory: write_at(
                    old(self)@.memory,
                    old(self)@.i as int,
                    memory::decimal_digits(value),
                ),
                ..old(self)@
            }),
    {
        self.memory.load_decimal_to_memory(value);
    }

    /// Copies the registers `v0` to `vx` to where the index register
    /// points.
    fn store_registers(&mut self, x: usize)
        requires
            x < REGISTERS_COUNT,
            old(self)@.i + x + 1 <= MAX_MEMORY,
        ensures
            final(self)@ == (ChipView {
                memory: write_at(
                    old(self)@.memory,
                    old(self)@.i as int,
                    old(self)@.v.subrange(0, x + 1),
                ),
                ..old(self)@
            }),
    {
        let bytes = &self.v_registers[0..x + 1];
        self.memory.load_bytes_to_memory(bytes);
    }

    /// Copies the bytes that the index register points at into the
    /// registers `v0` to `vx`.
    fn load_registers(&mut self, x: usize)
        requires
            x < REGISTERS_COUNT,
            old(self)@.i + x + 1 <= MAX_MEMORY,
        ensures
            final(self)@ == (ChipView {
                v: Seq::new(
                    REGISTERS_COUNT as nat,
                    |k: int|
                        if k <= x {
                            old(self)@.memory[old(self)@.i + k]
                        } else {
                            old(self)@.v[k]
                        },
                ),
                ..old(self)@
            }),
    {
        let bytes = self.memory.get_bytes(1 + x as u8);
        let mut k: usize = 0;
        while k <= x
            invariant
                k <= x + 1,
                x < REGISTERS_COUNT,
                old(self)@.i + x + 1 <= MAX_MEMORY,
                bytes@ == old(self)@.memory.subrange(old(self)@.i as int, old(self)@.i + x + 1),
                forall|j: int| 0 <= j < k ==> self.v_registers@[j] == bytes@[j],
                forall|j: int| k <= j < REGISTERS_COUNT ==> self.v_registers@[j] == old(self)@.v[j],
                self@ == (ChipView { v: self.v_registers@, ..old(self)@ }),
            decreases x + 1 - k,
        {
            self.v_registers[k] = bytes[k];
            k += 1;
        }
        assert forall|j: int| 0 <= j <= x implies bytes@[j] == old(self)@.memory[old(self)@.i + j] by {
        }
        assert(self@.v.len() == REGISTERS_COUNT);
        assert forall|j: int| 0 <= j <= x implies self@.v[j] == old(self)@.memory[old(self)@.i + j] by {
            assert(self.v_registers@[j] == bytes@[j]);
        }
        assert forall|j: int| x < j < REGISTERS_COUNT implies self@.v[j] == old(self)@.v[j] by {
            assert(self.v_registers@[j] == old(self)@.v[j]);
        }
        assert(self@.v =~= Seq::new(
            REGISTERS_COUNT as nat,
            |k: int|
                if k <= x {
                    old(self)@.memory[old(self)@.i + k]
                } else {
                    old(self)@.v[k]
                },
        ));
    }
}

} // verus!
