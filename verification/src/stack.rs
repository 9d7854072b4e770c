//! The call stack of return addresses.

use vstd::prelude::*;

verus! {

/// Return addresses that the stack can hold.
pub const STACK_SIZE: usize = 16;

/// The call stack: at most sixteen return addresses, last in, first out.
pub struct Stack {
    array: [u16; STACK_SIZE],
    stack_pointer: usize,
}

impl View for Stack {
    type V = Seq<u16>;

    /// The addresses held, oldest first.
    closed spec fn view(&self) -> Seq<u16> {
        self.array@.take(
            if self.stack_pointer <= STACK_SIZE {
                self.stack_pointer as int
            } else {
                STACK_SIZE as int
            },
        )
    }
}

impl Default for Stack {
    /// An empty stack.
    fn default() -> (stack: Self)
        ensures
            stack@ == Seq::<u16>::empty(),
    {
        Stack { array: [0; STACK_SIZE], stack_pointer: 0 }
    }
}

/// The stack after each of `values` is pushed on `stack`, first to last.
pub open spec fn pushed(stack: Seq<u16>, values: Seq<u16>) -> Seq<u16>
    decreases values.len(),
{
    if values.len() == 0 {
        stack
    } else {
        pushed(stack, values.drop_last()).push(values.last())
    }
}

/// What `count` pops hand out, first to last.
pub open spec fn popped(stack: Seq<u16>, count: nat) -> Seq<u16>
    decreases count,
{
    if count == 0 {
        Seq::empty()
    } else {
        seq![stack.last()] + popped(stack.drop_last(), (count - 1) as nat)
    }
}

/// Last in, first out: what was pushed comes back in reverse order, and
/// once it has all come back the stack is as it was before.
pub proof fn lemma_last_in_first_out(stack: Seq<u16>, values: Seq<u16>)
    ensures
        pushed(stack, values) == stack + values,
        popped(pushed(stack, values), values.len()) == values.reverse(),
        pushed(stack, values).take(stack.len() as int) == stack,
    decreases values.len(),
{
    if values.len() == 0 {
        assert(stack + values =~= stack);
        assert(popped(stack, 0) =~= values.reverse());
        assert(stack.take(stack.len() as int) =~= stack);
    } else {
        let front = values.drop_last();
        lemma_last_in_first_out(stack, front);
        assert(pushed(stack, values) =~= stack + values);
        assert(pushed(stack, values).drop_last() =~= pushed(stack, front));
        assert(values.reverse() =~= seq![values.last()] + front.reverse());
        assert((stack + values).take(stack.len() as int) =~= stack);
    }
}

impl Stack {
    /// The stack pointer never passes the end of the array.
    #[verifier::type_invariant]
    spec fn inv(&self) -> bool {
        self.stack_pointer <= STACK_SIZE
    }

    /// No stack holds more than sixteen addresses.
    pub proof fn lemma_bounded(&self)
        ensures
            self@.len() <= STACK_SIZE,
    {
    }

    /// How many addresses are held.
    pub fn len(&self) -> (n: usize)
        ensures
            n == self@.len(),
            n <= STACK_SIZE,
    {
        proof {
            use_type_invariant(self);
        }
        self.stack_pointer
    }

    /// Puts `value` on top.
    pub fn push(&mut self, value: u16)
        requires
            old(self)@.len() < STACK_SIZE,
        ensures
            final(self)@ == old(self)@.push(value),
    {
        proof {
            use_type_invariant(&*self);
        }
        self.array[self.stack_pointer] = value;
        self.stack_pointer += 1;
    }

    /// Takes the top address off and returns it.
    pub fn pop(&mut self) -> (value: u16)
        requires
            old(self)@.len() > 0,
        ensures
            value == old(self)@.last(),
            final(self)@ == old(self)@.drop_last(),
    {
        proof {
            use_type_invariant(&*self);
        }
        self.stack_pointer -= 1;
        self.array[self.stack_pointer]
    }
}

} // verus!
