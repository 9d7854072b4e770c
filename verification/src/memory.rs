//! The 4096-byte address space with its built-in font, the two address
//! registers, and the decoding of instruction words.

use vstd::prelude::*;

verus! {

/// Bytes of addressable memory.
pub const MAX_MEMORY: usize = 4096;

/// Bytes in the sprite of one hexadecimal digit.
pub const DEFAULT_SPRITE_SIZE: usize = 5;

/// Bytes in the whole font: sixteen digits.
pub const FONT_SIZE: usize = 80;

/// The font: the sprites of the digits 0 to F, five bytes each.
pub const DEFAULT_SPRITES: [u8; FONT_SIZE] = [
    0xF0, 0x90, 0x90, 0x90, 0xF0,
    0x20, 0x60, 0x20, 0x20, 0x70,
    0xF0, 0x10, 0xF0, 0x80, 0xF0,
    0xF0, 0x10, 0xF0, 0x10, 0xF0,
    0x90, 0x90, 0xF0, 0x10, 0x10,
    0xF0, 0x80, 0xF0, 0x10, 0xF0,
    0xF0, 0x80, 0xF0, 0x90, 0xF0,
    0xF0, 0x10, 0x20, 0x40, 0x40,
    0xF0, 0x90, 0xF0, 0x90, 0xF0,
    0xF0, 0x90, 0xF0, 0x10, 0xF0,
    0xF0, 0x90, 0xF0, 0x90, 0x90,
    0xE0, 0x90, 0xE0, 0x90, 0xE0,
    0xF0, 0x80, 0x80, 0x80, 0xF0,
    0xE0, 0x90, 0x90, 0x90, 0xE0,
    0xF0, 0x80, 0xF0, 0x80, 0xF0,
    0xF0, 0x80, 0xF0, 0x80, 0x80,
];

/// Memory and the registers that point into it.
pub struct Memory {
    /// The bytes, by address.
    pub array: [u8; MAX_MEMORY],
    /// The index register.
    pub i_register: u16,
    /// The address of the next instruction.
    pub pc_register: u16,
    /// Where programs are loaded and start.
    pub rom_start: u16,
}

/// The memory `memory` with `bytes` copied over it from address `at` on.
pub open spec fn write_at(memory: Seq<u8>, at: int, bytes: Seq<u8>) -> Seq<u8> {
    Seq::new(
        memory.len(),
        |a: int|
            if at <= a < at + bytes.len() {
                bytes[a - at]
            } else {
                memory[a]
            },
    )
}

/// The big-endian 16-bit word whose first byte is at address `at`.
pub open spec fn word_at(memory: Seq<u8>, at: int) -> u16 {
    (memory[at] * 256 + memory[at + 1]) as u16
}

/// The address of the instruction after the one at `pc`.
pub open spec fn next_pc(pc: u16) -> u16 {
    ((pc + 2) % 0x1_0000) as u16
}

/// The decimal digits of a byte: hundreds, tens, ones.
pub open spec fn decimal_digits(num: u8) -> Seq<u8> {
    seq![num / 100, (num / 10) % 10, num % 10]
}

/// The memory as it is before any program is loaded: the font, then zeros.
pub open spec fn initial_memory() -> Seq<u8> {
    Seq::new(
        MAX_MEMORY as nat,
        |a: int|
            if a < FONT_SIZE {
                DEFAULT_SPRITES@[a]
            } else {
                0u8
            },
    )
}

impl View for Memory {
    type V = Seq<u8>;

    /// The bytes, by address.
    open spec fn view(&self) -> Seq<u8> {
        self.array@
    }
}

impl Memory {
    /// Memory holding the font and nothing else, with the program counter
    /// at `start`.
    pub fn new(start: u16) -> (memory: Memory)
        ensures
            memory@ == initial_memory(),
            memory.i_register == 0,
            memory.pc_register == start,
            memory.rom_start == start,
    {
        let mut memory = Memory {
            array: [0; MAX_MEMORY],
            i_register: 0,
            pc_register: start,
            rom_start: start,
        };
        let mut a: usize = 0;
        while a < FONT_SIZE
            invariant
                a <= FONT_SIZE,
                memory.i_register == 0,
                memory.pc_register == start,
                memory.rom_start == start,
                forall|b: int| 0 <= b < a ==> memory.array@[b] == DEFAULT_SPRITES@[b],
                forall|b: int| a <= b < MAX_MEMORY ==> memory.array@[b] == 0,
            decreases FONT_SIZE - a,
        {
            memory.array[a] = DEFAULT_SPRITES[a];
            a += 1;
        }
        assert(memory@ =~= initial_memory());
        memory
    }

    /// The `count` bytes that the index register points at.
    pub fn get_bytes(&self, count: u8) -> (bytes: &[u8])
        requires
            self.i_register + count <= MAX_MEMORY,
        ensures
            bytes@ == self@.subrange(self.i_register as int, self.i_register + count),
    {
        let count: usize = count as usize;
        let i: usize = self.i_register as usize;
        &self.array[i..i + count]
    }

    /// The instruction that the program counter points at.
    pub fn get_current_instruction(&self) -> (instruction: Instruction)
        requires
            self.pc_register + 1 < MAX_MEMORY,
        ensures
            instruction == decode(word_at(self@, self.pc_register as int)),
    {
        let address: usize = self.pc_register as usize;
        let first: u16 = self.array[address] as u16;
        let second: u16 = self.array[address + 1] as u16;
        let raw_instruction: u16 = first << 8 | second;
        assert(first << 8 | second == first * 256 + second) by (bit_vector)
            requires
                first < 256,
                second < 256,
        ;
        Instruction::from(raw_instruction)
    }

    /// Moves the program counter to the next instruction. The counter is a
    /// 16-bit register: past its end it starts again at zero.
    pub fn increase_pc(&mut self)
        ensures
            *final(self) == (Memory { pc_register: next_pc(old(self).pc_register), ..*old(self) }),
    {
        self.pc_register = self.pc_register.wrapping_add(2);
    }

    /// Points the index register at the font's sprite of the digit `x`.
    pub fn load_default_sprite(&mut self, x: u8)
        requires
            x <= 0xF,
        ensures
            *final(self) == (Memory {
                i_register: (x * DEFAULT_SPRITE_SIZE) as u16,
                ..*old(self)
            }),
    {
        self.i_register = x as u16 * DEFAULT_SPRITE_SIZE as u16;
    }

    /// Stores the three decimal digits of `num` where the index register
    /// points.
    pub fn load_decimal_to_memory(&mut self, num: u8)
        requires
            old(self).i_register + 3 <= MAX_MEMORY,
        ensures
            final(self)@ == write_at(old(self)@, old(self).i_register as int, decimal_digits(num)),
            final(self).i_register == old(self).i_register,
            final(self).pc_register == old(self).pc_register,
            final(self).rom_start == old(self).rom_start,
    {
        let hundreds: u8 = num / 100;
        let tens: u8 = num / 10 % 10;
        let ones: u8 = num % 10;
        let digits: [u8; 3] = [hundreds, tens, ones];
        assert(digits@ =~= decimal_digits(num));
        self.load_bytes_to_memory(digits.as_slice());
    }

    /// Copies `bytes` to where the index register points.
    pub fn load_bytes_to_memory(&mut self, bytes: &[u8])
        requires
            old(self).i_register + bytes@.len() <= MAX_MEMORY,
        ensures
            final(self)@ == write_at(old(self)@, old(self).i_register as int, bytes@),
            final(self).i_register == old(self).i_register,
            final(self).pc_register == old(self).pc_register,
            final(self).rom_start == old(self).rom_start,
    {
        let index: usize = self.i_register as usize;
        self.copy_in(index, bytes);
    }

    /// Copies a program to where programs start.
    pub fn load_rom(&mut self, rom: &[u8])
        requires
            old(self).rom_start + rom@.len() <= MAX_MEMORY,
        ensures
            final(self)@ == write_at(old(self)@, old(self).rom_start as int, rom@),
            final(self).i_register == old(self).i_register,
            final(self).pc_register == old(self).pc_register,
            final(self).rom_start == old(self).rom_start,
    {
        let index: usize = self.rom_start as usize;
        self.copy_in(index, rom);
    }

    /// Copies `bytes` to the addresses from `index` on.
    fn copy_in(&mut self, index: usize, bytes: &[u8])
        requires
            index + bytes@.len() <= MAX_MEMORY,
        ensures
            final(self)@ == write_at(old(self)@, index as int, bytes@),
            final(self).i_register == old(self).i_register,
            final(self).pc_register == old(self).pc_register,
            final(self).rom_start == old(self).rom_start,
    {
        let mut k: usize = 0;
        while k < bytes.len()
            invariant
                k <= bytes@.len(),
                index + bytes@.len() <= MAX_MEMORY,
                self.i_register == old(self).i_register,
                self.pc_register == old(self).pc_register,
                self.rom_start == old(self).rom_start,
                self@ == write_at(old(self)@, index as int, bytes@.take(k as int)),
            decreases bytes@.len() - k,
        {
            self.array[index + k] = bytes[k];
            k += 1;
            assert(self@ =~= write_at(old(self)@, index as int, bytes@.take(k as int)));
        }
        assert(bytes@.take(k as int) =~= bytes@);
    }
}

/// The fields of an instruction word.
pub enum BitVariables {
    /// The top four bits: the class of the instruction.
    S,
    /// The lowest twelve bits: an address.
    Nnn,
    /// The lowest four bits.
    N,
    /// The low four bits of the high byte: a register.
    X,
    /// The high four bits of the low byte: a register.
    Y,
    /// The low byte.
    Kk,
}

/// The value of a field of an instruction word.
pub open spec fn bit_field(value: u16, variable: BitVariables) -> u16 {
    match variable {
        BitVariables::S => value / 4096,
        BitVariables::Nnn => value % 4096,
        BitVariables::N => value % 16,
        BitVariables::X => (value / 256) % 16,
        BitVariables::Y => (value / 16) % 16,
        BitVariables::Kk => value % 256,
    }
}

/// The fields are what shifting and masking the word give.
pub proof fn lemma_bit_field_by_masks(value: u16)
    ensures
        bit_field(value, BitVariables::S) == value >> 12,
        bit_field(value, BitVariables::Nnn) == value & 0xFFF,
        bit_field(value, BitVariables::N) == value & 0xF,
        bit_field(value, BitVariables::X) == (value >> 8) & 0xF,
        bit_field(value, BitVariables::Y) == (value >> 4) & 0xF,
        bit_field(value, BitVariables::Kk) == value & 0xFF,
{
    assert(value / 4096 == value >> 12) by (bit_vector);
    assert(value % 4096 == value & 0xFFF) by (bit_vector);
    assert(value % 16 == value & 0xF) by (bit_vector);
    assert((value / 256) % 16 == (value >> 8) & 0xF) by (bit_vector);
    assert((value / 16) % 16 == (value >> 4) & 0xF) by (bit_vector);
    assert(value % 256 == value & 0xFF) by (bit_vector);
}

/// Extracts a field of an instruction word.
pub fn get_variable(value: u16, variable: BitVariables) -> (field: u16)
    ensures
        field == bit_field(value, variable),
{
    proof {
        lemma_bit_field_by_masks(value);
        assert((value & 0x0F00) >> 8 == (value >> 8) & 0xF) by (bit_vector);
        assert((value & 0x00F0) >> 4 == (value >> 4) & 0xF) by (bit_vector);
    }
    match variable {
        BitVariables::S => value >> 12,
        BitVariables::Nnn => value & 0x0FFF,
        BitVariables::N => value & 0x000F,
        BitVariables::X => (value & 0x0F00) >> 8,
        BitVariables::Y => (value & 0x00F0) >> 4,
        BitVariables::Kk => value & 0x00FF,
    }
}

/// An instruction word taken apart.
#[derive(Clone, Copy, Debug, PartialEq, Eq, Structural)]
pub struct Instruction {
    /// The class of the instruction.
    pub s: u8,
    /// The first register named.
    pub x: usize,
    /// The second register named.
    pub y: usize,
    /// The four-bit operand.
    pub n: u8,
    /// The address operand.
    pub nnn: u16,
    /// The byte operand.
    pub kk: u8,
}

/// The instruction that a word encodes.
pub open spec fn decode(value: u16) -> Instruction {
    Instruction {
        s: bit_field(value, BitVariables::S) as u8,
        x: bit_field(value, BitVariables::X) as usize,
        y: bit_field(value, BitVariables::Y) as usize,
        n: bit_field(value, BitVariables::N) as u8,
        nnn: bit_field(value, BitVariables::Nnn),
        kk: bit_field(value, BitVariables::Kk) as u8,
    }
}

impl vstd::std_specs::convert::FromSpecImpl<u16> for Instruction {
    open spec fn obeys_from_spec() -> bool {
        true
    }

    open spec fn from_spec(value: u16) -> Instruction {
        decode(value)
    }
}

impl From<u16> for Instruction {
    /// Takes an instruction word apart.
    fn from(value: u16) -> (instruction: Self) {
        Instruction {
            s: get_variable(value, BitVariables::S) as u8,
            x: get_variable(value, BitVariables::X) as usize,
            y: get_variable(value, BitVariables::Y) as usize,
            n: get_variable(value, BitVariables::N) as u8,
            nnn: get_variable(value, BitVariables::Nnn),
            kk: get_variable(value, BitVariables::Kk) as u8,
        }
    }
}

impl Instruction {
    /// The four nibbles of the word, highest first.
    pub open spec fn nibbles(&self) -> (u8, u8, u8, u8) {
        (self.s, self.x as u8, self.y as u8, self.n)
    }

    /// Whether the fields are those of some instruction word.
    pub open spec fn well_formed(&self) -> bool {
        &&& self.s < 16
        &&& self.x < 16
        &&& self.y < 16
        &&& self.n < 16
        &&& self.nnn == self.x * 256 + self.kk
        &&& self.kk == self.y * 16 + self.n
    }

    /// The four nibbles of the word, highest first.
    pub fn get_nibbles(&self) -> (nibbles: (u8, u8, u8, u8))
        ensures
            nibbles == self.nibbles(),
    {
        (self.s, self.x as u8, self.y as u8, self.n)
    }
}

/// What is decoded from a word has its fields in range, and they fit
/// together.
pub proof fn lemma_decode_well_formed(value: u16)
    ensures
        decode(value).well_formed(),
        value == decode(value).s * 4096 + decode(value).nnn,
{
    assert(value / 4096 < 16) by (bit_vector);
    assert(value % 4096 == ((value / 256) % 16) * 256 + value % 256) by (bit_vector);
    assert(value % 256 == ((value / 16) % 16) * 16 + value % 16) by (bit_vector);
    assert(value == (value / 4096) * 4096 + value % 4096) by (bit_vector);
}

} // verus!
