//! Heights and rounds of the consensus protocol.
use vstd::prelude::*;

verus! {

/// A blockchain height.
#[derive(Clone, Copy, Debug, PartialEq, Eq, Structural, PartialOrd, Ord, Hash)]
pub struct Height(pub u64);

impl Height {
    pub fn new(height: u64) -> (r: Height)
        ensures
            r.0 == height,
    {
        Height(height)
    }

    pub fn as_u64(&self) -> (r: u64)
        ensures
            r == self.0,
    {
        self.0
    }

    pub fn increment(&self) -> (r: Height)
        requires
            self.0 < u64::MAX,
        ensures
            r.0 == self.0 + 1,
    {
        Height(self.0 + 1)
    }

    pub fn decrement(&self) -> (r: Option<Height>)
        ensures
            self.0 == 0 ==> r.is_none(),
            self.0 > 0 ==> r == Some(Height((self.0 - 1) as u64)),
    {
        if self.0 == 0 {
            None
        } else {
            Some(Height(self.0 - 1))
        }
    }

    pub fn increment_by(&self, n: u64) -> (r: Height)
        requires
            self.0 + n <= u64::MAX,
        ensures
            r.0 == self.0 + n,
    {
        Height(self.0 + n)
    }

    /// Steps back `n` heights, stopping at zero.
    pub fn decrement_by(&self, n: u64) -> (r: Height)
        ensures
            r.0 == if self.0 >= n { (self.0 - n) as u64 } else { 0 },
    {
        Height(self.0.saturating_sub(n))
    }
}

impl Default for Height {
    fn default() -> (r: Height)
        ensures
            r.0 == 1,
    {
        Height(1)
    }
}

/// A consensus round: `Nil`, or a round number.
#[derive(Clone, Copy, Debug, PartialEq, Eq, Structural, Hash)]
pub enum Round {
    Nil,
    Num(u32),
}

impl Round {
    pub fn new(round: u32) -> (r: Round)
        ensures
            r == Round::Num(round),
    {
        Round::Num(round)
    }

    /// The round as a signed number, with `Nil` as -1.
    pub open spec fn spec_as_i64(self) -> i64 {
        match self {
            Round::Nil => -1i64,
            Round::Num(r) => r as i64,
        }
    }

    pub fn as_i64(&self) -> (r: i64)
        ensures
            r == self.spec_as_i64(),
    {
        match self {
            Round::Nil => -1,
            Round::Num(r) => *r as i64,
        }
    }

    pub fn as_u32(&self) -> (r: Option<u32>)
        ensures
            r == (match *self {
                Round::Nil => None,
                Round::Num(x) => Some(x),
            }),
    {
        match self {
            Round::Nil => None,
            Round::Num(r) => Some(*r),
        }
    }

    pub fn is_defined(&self) -> (r: bool)
        ensures
            r == (*self is Num),
    {
        match self {
            Round::Nil => false,
            Round::Num(_) => true,
        }
    }
}

} // verus!
