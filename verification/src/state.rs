//! The machine as mathematics: its state as plain values, and what one
//! instruction makes of a state.

use crate::display::{blank, collides, draw, DisplayView};
use crate::hardware::{KeyboardView, TimerView, KEY_COUNT, TIMER_TICK_MICROS};
use crate::memory::{
    decimal_digits, decode, initial_memory, lemma_decode_well_formed, next_pc, word_at,
    write_at,
    Instruction, DEFAULT_SPRITE_SIZE, MAX_MEMORY,
};
use crate::stack::STACK_SIZE;
use crate::timer::SoundView;
use vstd::prelude::*;

verus! {

/// General-purpose registers.
pub const REGISTERS_COUNT: usize = 16;

/// The register that instructions use for their carry, borrow and collision
/// flags.
pub const FLAG_REGISTER: usize = 0xF;

/// Why the machine cannot execute the instruction that it is at.
#[derive(Clone, Copy, Debug, PartialEq, Eq, Structural)]
pub enum Fault {
    /// The word at the program counter is no instruction of the machine.
    UnknownInstruction,
    /// A call with sixteen return addresses on the stack already.
    StackOverflow,
    /// A return with no return address on the stack.
    StackUnderflow,
    /// The instruction or its operands lie beyond the end of memory.
    OutOfBounds,
    /// The font has no sprite for the value: it is above 0xF.
    InvalidSprite,
    /// The keyboard has no key for the value: it is above 0xF.
    InvalidKey,
}

/// The low byte of the sum of two bytes.
pub open spec fn wrapped_sum(a: u8, b: u8) -> u8 {
    ((a + b) % 256) as u8
}

/// The low byte of the difference of two bytes.
pub open spec fn wrapped_difference(a: u8, b: u8) -> u8 {
    ((a - b) % 256) as u8
}

/// The index register moved on by `offset`. It is a 16-bit register: past
/// its end it starts again at zero.
pub open spec fn moved_index(i: u16, offset: u8) -> u16 {
    ((i + offset) % 0x1_0000) as u16
}

/// What a machine is to a contract.
pub struct ChipView {
    /// The sixteen registers `v0` to `vF`.
    pub v: Seq<u8>,
    /// The 4096 bytes of memory.
    pub memory: Seq<u8>,
    /// The index register.
    pub i: u16,
    /// The program counter.
    pub pc: u16,
    /// Where programs are loaded.
    pub rom_start: u16,
    /// The return addresses, oldest first.
    pub stack: Seq<u16>,
    /// The screen and its redraw flag.
    pub display: DisplayView,
    /// The keyboard.
    pub keyboard: KeyboardView,
    /// The delay timer.
    pub delay: TimerView,
    /// The sound timer, with the beep that it may owe.
    pub sound: SoundView,
}

/// What the host has to do after a cycle.
#[derive(Clone, Copy, Debug, PartialEq, Eq, Structural)]
pub struct Actions {
    /// The picture changed: show it.
    pub draw: bool,
    /// The sound timer counted down: beep.
    pub beep: bool,
}

impl ChipView {
    /// A machine as it is made: registers, timers and screen at zero, the
    /// font in memory, the program counter where programs start.
    pub open spec fn initial(rom_start: u16) -> ChipView {
        ChipView {
            v: Seq::new(REGISTERS_COUNT as nat, |k: int| 0u8),
            memory: initial_memory(),
            i: 0,
            pc: rom_start,
            rom_start,
            stack: Seq::empty(),
            display: DisplayView { pixels: blank(), must_draw: false },
            keyboard: KeyboardView::idle(),
            delay: TimerView::set(0, 0),
            sound: SoundView { timer: TimerView::set(0, 0), beep: false },
        }
    }

    /// The sizes that every machine has.
    pub open spec fn well_formed(self) -> bool {
        &&& self.v.len() == REGISTERS_COUNT
        &&& self.memory.len() == MAX_MEMORY
        &&& self.stack.len() <= STACK_SIZE
        &&& crate::display::well_formed(self.display.pixels)
        &&& self.keyboard.well_formed()
    }

    /// The instruction at the program counter.
    pub open spec fn instruction(self) -> Instruction {
        decode(word_at(self.memory, self.pc as int))
    }

    /// The state with `value` in register `x`.
    pub open spec fn with_register(self, x: int, value: u8) -> ChipView {
        ChipView { v: self.v.update(x, value), ..self }
    }

    /// The state with the flag register at 1 if `condition` holds, else 0.
    pub open spec fn with_flag(self, condition: bool) -> ChipView {
        self.with_register(
            FLAG_REGISTER as int,
            if condition {
                1u8
            } else {
                0u8
            },
        )
    }

    /// The state with the program counter one instruction further.
    pub open spec fn advanced(self) -> ChipView {
        ChipView { pc: next_pc(self.pc), ..self }
    }

    /// The state with the next instruction skipped if `condition` holds.
    pub open spec fn skip_if(self, condition: bool) -> ChipView {
        if condition {
            self.advanced()
        } else {
            self
        }
    }

    /// Why the instruction at the program counter cannot be executed, if
    /// it cannot.
    pub open spec fn fault(self) -> Option<Fault> {
        if self.pc + 1 >= MAX_MEMORY {
            Some(Fault::OutOfBounds)
        } else {
            self.fault_in(self.instruction())
        }
    }

    /// Why `instruction` cannot be executed in this state, if it cannot.
    pub open spec fn fault_in(self, instruction: Instruction) -> Option<Fault> {
        let v_x = self.v[instruction.x as int];
        match instruction.nibbles() {
            (0x0, 0x0, 0xE, 0x0) => None,
            (0x0, 0x0, 0xE, 0xE) => if self.stack.len() == 0 {
                Some(Fault::StackUnderflow)
            } else {
                None
            },
            (0x0, _, _, _) => None,
            (0x1, _, _, _) => None,
            (0x2, _, _, _) => if self.stack.len() >= STACK_SIZE {
                Some(Fault::StackOverflow)
            } else {
                None
            },
            (0x3, _, _, _) => None,
            (0x4, _, _, _) => None,
            (0x5, _, _, 0x0) => None,
            (0x6, _, _, _) => None,
            (0x7, _, _, _) => None,
            (0x8, _, _, 0x0) => None,
            (0x8, _, _, 0x1) => None,
            (0x8, _, _, 0x2) => None,
            (0x8, _, _, 0x3) => None,
            (0x8, _, _, 0x4) => None,
            (0x8, _, _, 0x5) => None,
            (0x8, _, _, 0x6) => None,
            (0x8, _, _, 0x7) => None,
            (0x8, _, _, 0xE) => None,
            (0x9, _, _, 0x0) => None,
            (0xA, _, _, _) => None,
            (0xB, _, _, _) => None,
            (0xC, _, _, _) => None,
            (0xD, _, _, _) => if self.i + instruction.n > MAX_MEMORY {
                Some(Fault::OutOfBounds)
            } else {
                None
            },
            (0xE, _, 0x9, 0xE) => if v_x >= KEY_COUNT {
                Some(Fault::InvalidKey)
            } else {
                None
            },
            (0xE, _, 0xA, 0x1) => if v_x >= KEY_COUNT {
                Some(Fault::InvalidKey)
            } else {
                None
            },
            (0xF, _, 0x0, 0x7) => None,
            (0xF, _, 0x0, 0xA) => None,
            (0xF, _, 0x1, 0x5) => None,
            (0xF, _, 0x1, 0x8) => None,
            (0xF, _, 0x1, 0xE) => None,
            (0xF, _, 0x2, 0x9) => if v_x > 0xF {
                Some(Fault::InvalidSprite)
            } else {
                None
            },
            (0xF, _, 0x3, 0x3) => if self.i + 3 > MAX_MEMORY {
                Some(Fault::OutOfBounds)
            } else {
                None
            },
            (0xF, _, 0x5, 0x5) => if self.i + instruction.x + 1 > MAX_MEMORY {
                Some(Fault::OutOfBounds)
            } else {
                None
            },
            (0xF, _, 0x6, 0x5) => if self.i + instruction.x + 1 > MAX_MEMORY {
                Some(Fault::OutOfBounds)
            } else {
                None
            },
            _ => Some(Fault::UnknownInstruction),
        }
    }

    /// Whether `instruction` sets the program counter itself, so that it
    /// is not advanced afterwards: the two jumps and the call.
    pub open spec fn jumps(instruction: Instruction) -> bool {
        instruction.s == 0x1 || instruction.s == 0x2 || instruction.s == 0xB
    }

    /// What `instruction` makes of this state, before the program counter
    /// is advanced. `random` is the byte drawn for the one instruction that
    /// asks for one, `now` the time on the machine's clock, for the two
    /// that set a timer.
    pub open spec fn apply(self, instruction: Instruction, random: u8, now: u128) -> ChipView {
        let x = instruction.x as int;
        let v_x = self.v[instruction.x as int];
        let v_y = self.v[instruction.y as int];
        match instruction.nibbles() {
            // 00E0: clear the screen
            (0x0, 0x0, 0xE, 0x0) => ChipView {
                display: DisplayView { pixels: blank(), must_draw: true },
                ..self
            },
            // 00EE: return
            (0x0, 0x0, 0xE, 0xE) => ChipView {
                pc: self.stack.last(),
                stack: self.stack.drop_last(),
                ..self
            },
            // 0nnn: ignored
            (0x0, _, _, _) => self,
            // 1nnn: jump
            (0x1, _, _, _) => ChipView { pc: instruction.nnn, ..self },
            // 2nnn: call
            (0x2, _, _, _) => ChipView {
                pc: instruction.nnn,
                stack: self.stack.push(self.pc),
                ..self
            },
            // 3xkk, 4xkk, 5xy0: skips
            (0x3, _, _, _) => self.skip_if(v_x == instruction.kk),
            (0x4, _, _, _) => self.skip_if(v_x != instruction.kk),
            (0x5, _, _, 0x0) => self.skip_if(v_x == v_y),
            // 6xkk, 7xkk: load and add a byte
            (0x6, _, _, _) => self.with_register(x, instruction.kk),
            (0x7, _, _, _) => self.with_register(x, wrapped_sum(v_x, instruction.kk)),
            // 8xy_: register to register
            (0x8, _, _, 0x0) => self.with_register(x, v_y),
            (0x8, _, _, 0x1) => self.with_register(x, v_x | v_y),
            (0x8, _, _, 0x2) => self.with_register(x, v_x & v_y),
            (0x8, _, _, 0x3) => self.with_register(x, v_x ^ v_y),
            (0x8, _, _, 0x4) => self.with_flag(v_x + v_y > 255).with_register(
                x,
                wrapped_sum(v_x, v_y),
            ),
            (0x8, _, _, 0x5) => self.with_flag(v_x > v_y).with_register(
                x,
                wrapped_difference(v_x, v_y),
            ),
            (0x8, _, _, 0x6) => self.with_flag(v_x & 1 == 1).with_register(x, v_x >> 1),
            (0x8, _, _, 0x7) => self.with_flag(v_y > v_x).with_register(
                x,
                wrapped_difference(v_y, v_x),
            ),
            (0x8, _, _, 0xE) => self.with_flag(v_x >> 7 == 1).with_register(x, v_x << 1),
            // 9xy0: skip
            (0x9, _, _, 0x0) => self.skip_if(v_x != v_y),
            // Annn: load the index register
            (0xA, _, _, _) => ChipView { i: instruction.nnn, ..self },
            // Bnnn: jump by v0
            (0xB, _, _, _) => ChipView { pc: (instruction.nnn + self.v[0]) as u16, ..self },
            // Cxkk: random byte
            (0xC, _, _, _) => self.with_register(x, random & instruction.kk),
            // Dxyn: draw
            (0xD, _, _, _) => {
                let sprite = self.memory.subrange(self.i as int, self.i + instruction.n);
                ChipView {
                    display: DisplayView {
                        pixels: draw(self.display.pixels, sprite, v_x, v_y),
                        must_draw: true,
                    },
                    ..self
                }.with_flag(collides(self.display.pixels, sprite, v_x, v_y))
            },
            // Ex9E, ExA1: skip by a key
            (0xE, _, 0x9, 0xE) => self.skip_if(self.keyboard.pressed[v_x as int]),
            (0xE, _, 0xA, 0x1) => self.skip_if(!self.keyboard.pressed[v_x as int]),
            // Fx07: read the delay timer
            (0xF, _, 0x0, 0x7) => self.with_register(x, self.delay.remaining),
            // Fx0A: wait for a key
            (0xF, _, 0x0, 0xA) => {
                let asked = ChipView { keyboard: self.keyboard.request(), ..self };
                match self.keyboard.requested_key() {
                    Some(key) => asked.with_register(x, key),
                    None => asked,
                }
            },
            // Fx15, Fx18: set the timers
            (0xF, _, 0x1, 0x5) => ChipView { delay: TimerView::set(v_x, now), ..self },
            (0xF, _, 0x1, 0x8) => ChipView {
                sound: SoundView { timer: TimerView::set(v_x, now), ..self.sound },
                ..self
            },
            // Fx1E: add to the index register
            (0xF, _, 0x1, 0xE) => ChipView { i: moved_index(self.i, v_x), ..self },
            // Fx29: point at a digit of the font
            (0xF, _, 0x2, 0x9) => ChipView { i: (v_x * DEFAULT_SPRITE_SIZE) as u16, ..self },
            // Fx33: store decimal digits
            (0xF, _, 0x3, 0x3) => ChipView {
                memory: write_at(self.memory, self.i as int, decimal_digits(v_x)),
                ..self
            },
            // Fx55: store v0 to vx
            (0xF, _, 0x5, 0x5) => ChipView {
                memory: write_at(self.memory, self.i as int, self.v.subrange(0, x + 1)),
                ..self
            },
            // Fx65: load v0 to vx
            (0xF, _, 0x6, 0x5) => ChipView {
                v: Seq::new(
                    REGISTERS_COUNT as nat,
                    |k: int|
                        if k <= x {
                            self.memory[self.i + k]
                        } else {
                            self.v[k]
                        },
                ),
                ..self
            },
            _ => self,
        }
    }

    /// The state after the instruction at the program counter is executed:
    /// what the instruction makes of the state, and then the program
    /// counter advanced, unless the instruction set it or the machine waits
    /// for a key.
    pub open spec fn execute(self, random: u8, now: u128) -> ChipView {
        let instruction = self.instruction();
        let next = self.apply(instruction, random, now);
        if !next.keyboard.waiting && !Self::jumps(instruction) {
            next.advanced()
        } else {
            next
        }
    }

    /// The state after a whole cycle at the time `now`, and what the cycle
    /// asks of the host: the instruction is executed, both timers count
    /// down if they are due, and the redraw and the beep that are owed are
    /// handed over.
    pub open spec fn cycle(self, random: u8, now: u128) -> (ChipView, Actions) {
        let executed = self.execute(random, now);
        let sound = executed.sound.countdown(now);
        (
            ChipView {
                display: DisplayView { must_draw: false, ..executed.display },
                delay: executed.delay.countdown(now),
                sound: sound.silenced(),
                ..executed
            },
            Actions { draw: executed.display.must_draw, beep: sound.beep },
        )
    }
}

/// The add instruction `8xy4` leaves the low byte of the sum in `vx`,
/// whatever else it does, and the carry in `vF`: 1 if the sum is above 255,
/// else 0. Where `vx` is `vF` itself the sum is what stays.
pub proof fn lemma_add_sets_carry(state: ChipView, random: u8, now: u128)
    requires
        state.well_formed(),
        state.instruction().s == 0x8,
        state.instruction().n == 0x4,
    ensures
        state.fault() is None <==> state.pc + 1 < MAX_MEMORY,
        ({
            let x = state.instruction().x as int;
            let y = state.instruction().y as int;
            let sum = state.v[x] + state.v[y];
            let after = state.execute(random, now);
            &&& after.v[x] == sum % 256
            &&& x != FLAG_REGISTER ==> after.v[FLAG_REGISTER as int] == if sum > 255 {
                1int
            } else {
                0int
            }
            &&& forall|k: int|
                0 <= k < REGISTERS_COUNT && k != x && k != FLAG_REGISTER ==> after.v[k]
                    == state.v[k]
            &&& after.pc == if state.keyboard.waiting {
                state.pc
            } else {
                next_pc(state.pc)
            }
        }),
{
    lemma_decode_well_formed(word_at(state.memory, state.pc as int));
}

/// Only the instruction `Cxkk` looks at the random byte, and only `Fx15`
/// and `Fx18`, which set the timers, look at the time.
pub proof fn lemma_random_and_time_only_where_asked(
    state: ChipView,
    random: u8,
    now: u128,
    other_random: u8,
    other_now: u128,
)
    ensures
        state.instruction().s != 0xC ==> state.execute(random, now) == state.execute(
            other_random,
            now,
        ),
        state.instruction().s != 0xF ==> state.execute(random, now) == state.execute(
            random,
            other_now,
        ),
{
}

/// A jump to its own address changes nothing: the machine stays where it
/// is, and no redraw is asked for that was not asked for before.
pub proof fn lemma_jump_to_self_is_idle(state: ChipView, random: u8, now: u128)
    requires
        state.instruction().s == 0x1,
        state.instruction().nnn == state.pc,
    ensures
        state.execute(random, now) == state,
{
}

/// A call and the return from it: the call goes to its target and
/// remembers where it came from, and a return executed there comes back to
/// the instruction after the call, with the stack as it was before.
pub proof fn lemma_call_and_return(state: ChipView, random: u8, now: u128)
    requires
        state.well_formed(),
        state.fault() is None,
        state.instruction().s == 0x2,
        state.instruction().nnn + 1 < MAX_MEMORY,
        state.execute(random, now).instruction().nibbles() == (0x0u8, 0x0u8, 0xEu8, 0xEu8),
        !state.keyboard.waiting,
    ensures
        state.execute(random, now).pc == state.instruction().nnn,
        state.execute(random, now).stack == state.stack.push(state.pc),
        state.execute(random, now).fault() is None,
        state.execute(random, now).execute(random, now) == state.advanced(),
{
    lemma_decode_well_formed(word_at(state.memory, state.pc as int));
    let called = state.execute(random, now);
    assert(called.stack.drop_last() =~= state.stack);
}

/// An instruction that can be executed leaves the machine well formed.
pub proof fn lemma_execute_well_formed(state: ChipView, random: u8, now: u128)
    requires
        state.well_formed(),
        state.fault() is None,
    ensures
        state.execute(random, now).well_formed(),
        state.cycle(random, now).0.well_formed(),
{
    lemma_decode_well_formed(word_at(state.memory, state.pc as int));
    let instruction = state.instruction();
    let next = state.apply(instruction, random, now);
    assert(next.v.len() == REGISTERS_COUNT);
    assert(next.memory.len() == MAX_MEMORY);
    assert(next.keyboard.well_formed());
    assert(crate::display::well_formed(next.display.pixels));
}

/// The timers of a machine that runs in a tight loop count down with the
/// clock and not with the cycles: a cycle that comes before a timer's
/// period is over leaves that timer alone, and one that comes a period or
/// more after takes one off it, if it is not at zero, and for the sound
/// timer asks for a beep.
pub proof fn lemma_timers_keep_time(state: ChipView, random: u8, now: u128)
    requires
        state.instruction().s == 0x1,
        !state.sound.beep,
    ensures
        state.cycle(random, now).0.delay == state.delay.countdown(now),
        now - state.delay.tick_start < TIMER_TICK_MICROS ==> state.cycle(random, now).0.delay
            == state.delay,
        state.cycle(random, now).0.sound.timer == state.sound.timer.countdown(now),
        state.cycle(random, now).1.beep == state.sound.timer.due(now),
        now - state.sound.timer.tick_start < TIMER_TICK_MICROS ==> !state.cycle(random, now).1.beep,
{
}

} // verus!
