//! The samples of the beep: a buffer of little-endian 16-bit samples that is
//! played from the start each time the machine asks for a beep.

use vstd::prelude::*;

verus! {

/// The 16-bit sample whose low byte is `low` and whose high byte is `high`,
/// in two's complement.
pub open spec fn sample_of(low: u8, high: u8) -> int {
    if high >= 128 {
        low + 256 * high - 65536
    } else {
        low + 256 * high
    }
}

/// The beep's samples and how far they have been played.
pub struct Callback {
    buffer: Vec<u8>,
    position: usize,
}

/// What the player is to a contract.
pub struct CallbackView {
    /// The samples, two bytes each, low byte first.
    pub buffer: Seq<u8>,
    /// The index of the next byte to play.
    pub position: nat,
}

impl CallbackView {
    /// Whether a whole sample is left to play.
    pub open spec fn has_sample(self) -> bool {
        self.position + 1 < self.buffer.len()
    }

    /// The next sample to play: the one at the position, or silence when
    /// the buffer is played out.
    pub open spec fn sample(self) -> int {
        if self.has_sample() {
            sample_of(self.buffer[self.position as int], self.buffer[self.position as int + 1])
        } else {
            0
        }
    }

    /// The player after a sample is taken.
    pub open spec fn after_sample(self) -> CallbackView {
        if self.has_sample() {
            CallbackView { position: self.position + 2, ..self }
        } else {
            self
        }
    }
}

impl View for Callback {
    type V = CallbackView;

    closed spec fn view(&self) -> CallbackView {
        CallbackView { buffer: self.buffer@, position: self.position as nat }
    }
}

impl Callback {
    /// A player at the start of `buffer`.
    pub fn new(buffer: Vec<u8>) -> (callback: Self)
        ensures
            callback@ == (CallbackView { buffer: buffer@, position: 0 }),
    {
        Callback { buffer, position: 0 }
    }

    /// Starts the beep again from its first sample.
    pub fn rewind(&mut self)
        ensures
            final(self)@ == (CallbackView { position: 0, ..old(self)@ }),
    {
        self.position = 0;
    }

    /// Takes the next sample: silence once the buffer is played out.
    pub fn next_sample(&mut self) -> (sample: i16)
        ensures
            sample == old(self)@.sample(),
            final(self)@ == old(self)@.after_sample(),
    {
        if self.position < self.buffer.len() && self.position + 1 < self.buffer.len() {
            let low: i32 = self.buffer[self.position] as i32;
            let high: i32 = self.buffer[self.position + 1] as i32;
            self.position += 2;
            let value: i32 = low + 256 * high;
            if value >= 32768 {
                (value - 65536) as i16
            } else {
                value as i16
            }
        } else {
            0
        }
    }
}

} // verus!
