//! The operands of a CharString and the stack that holds them.

use vstd::prelude::*;

use crate::cff::CFFError;

verus! {

/// A number of a CharString.
///
/// CharStrings mix integers and 16.16 fixed-point numbers. Both are kept as
/// they were read, so that no operand loses precision on the stack.
#[derive(Clone, Copy, Debug, PartialEq, Eq, Structural)]
pub enum Operand {
    /// An integer.
    Int(i16),
    /// A 16.16 fixed-point number, by its raw value.
    Fixed(i32),
}

/// Half of the distance between neighbouring single precision numbers at
/// the magnitude `a`, where that distance is above one.
pub open spec fn rounding_half(a: int) -> int {
    if a < 0x100_0000 {
        0
    } else if a < 0x200_0000 {
        1
    } else if a < 0x400_0000 {
        2
    } else if a < 0x800_0000 {
        4
    } else if a < 0x1000_0000 {
        8
    } else if a < 0x2000_0000 {
        16
    } else if a < 0x4000_0000 {
        32
    } else if a < 0x8000_0000 {
        64
    } else {
        128
    }
}

impl Operand {
    /// The integer that the operand stands for where an operator takes an
    /// integer: the operand as a single precision number, cut off towards
    /// zero.
    ///
    /// An integer stands for itself. A raw fixed-point value is first rounded
    /// to the nearest number of 24 significant bits, ties to even, then
    /// divided by 65536 and cut off. The rounding changes the result only
    /// where it carries into the integer part.
    pub open spec fn spec_trunc(self) -> int {
        match self {
            Operand::Int(n) => n as int,
            Operand::Fixed(raw) => {
                let a = if raw < 0 {
                    -raw
                } else {
                    raw as int
                };
                let m = (a + rounding_half(a)) / 0x1_0000;
                if raw < 0 {
                    -m
                } else {
                    m
                }
            },
        }
    }

    /// The integer that the operand stands for where an operator takes an
    /// integer.
    pub fn trunc(self) -> (r: i32)
        ensures
            r == self.spec_trunc(),
            -0x8000 <= r <= 0x8000,
    {
        match self {
            Operand::Int(n) => n as i32,
            Operand::Fixed(raw) => {
                let a: u64 = if raw < 0 {
                    (-(raw as i64)) as u64
                } else {
                    raw as u64
                };
                let half: u64 = if a < 0x100_0000 {
                    0
                } else if a < 0x200_0000 {
                    1
                } else if a < 0x400_0000 {
                    2
                } else if a < 0x800_0000 {
                    4
                } else if a < 0x1000_0000 {
                    8
                } else if a < 0x2000_0000 {
                    16
                } else if a < 0x4000_0000 {
                    32
                } else if a < 0x8000_0000 {
                    64
                } else {
                    128
                };
                let m: u64 = (a + half) / 0x1_0000;
                if raw < 0 {
                    -(m as i32)
                } else {
                    m as i32
                }
            },
        }
    }
}

/// A stack of operands that holds no more than a fixed number of them.
pub struct ArgumentsStack {
    data: Vec<Operand>,
    max_len: usize,
}

impl View for ArgumentsStack {
    type V = Seq<Operand>;

    closed spec fn view(&self) -> Seq<Operand> {
        self.data@
    }
}

impl ArgumentsStack {
    /// The number of operands that the stack can hold.
    pub closed spec fn capacity(&self) -> nat {
        self.max_len as nat
    }

    /// An empty stack that holds up to `max_len` operands.
    pub fn new(max_len: usize) -> (stack: Self)
        ensures
            stack@ == Seq::<Operand>::empty(),
            stack.capacity() == max_len,
    {
        ArgumentsStack { data: Vec::new(), max_len }
    }

    /// The number of operands on the stack.
    pub fn len(&self) -> (n: usize)
        ensures
            n == self@.len(),
    {
        self.data.len()
    }

    /// Whether the stack holds no operand.
    pub fn is_empty(&self) -> (b: bool)
        ensures
            b == (self@.len() == 0),
    {
        self.data.len() == 0
    }

    /// Puts `n` on top of the stack, unless the stack is full.
    pub fn push(&mut self, n: Operand) -> (r: Result<(), CFFError>)
        ensures
            final(self).capacity() == old(self).capacity(),
            match r {
                Ok(_) => old(self)@.len() < old(self).capacity() && final(self)@ == old(self)@.push(
                    n,
                ),
                Err(e) => e == CFFError::ArgumentsStackLimitReached && old(self)@.len()
                    >= old(self).capacity() && final(self)@ == old(self)@,
            },
    {
        if self.data.len() >= self.max_len {
            Err(CFFError::ArgumentsStackLimitReached)
        } else {
            self.data.push(n);
            Ok(())
        }
    }

    /// The operand at `index`, counted from the bottom.
    pub fn at(&self, index: usize) -> (n: Operand)
        requires
            index < self@.len(),
        ensures
            n == self@[index as int],
    {
        self.data[index]
    }

    /// Takes the top operand off the stack, which must not be empty.
    pub fn pop(&mut self) -> (n: Operand)
        requires
            old(self)@.len() > 0,
        ensures
            final(self).capacity() == old(self).capacity(),
            n == old(self)@.last(),
            final(self)@ == old(self)@.drop_last(),
    {
        let n = self.data[self.data.len() - 1];
        self.data.truncate(self.data.len() - 1);
        assert(self.data@ == old(self).data@.drop_last());
        n
    }

    /// Takes the `n` topmost operands off the stack, which must hold them.
    pub fn pop_n(&mut self, n: usize)
        requires
            n <= old(self)@.len(),
        ensures
            final(self).capacity() == old(self).capacity(),
            final(self)@ == old(self)@.take(old(self)@.len() - n),
    {
        self.data.truncate(self.data.len() - n);
    }

    /// Empties the stack.
    pub fn clear(&mut self)
        ensures
            final(self).capacity() == old(self).capacity(),
            final(self)@ == Seq::<Operand>::empty(),
    {
        self.data.clear();
    }
}

} // verus!
