use vstd::prelude::*;

verus! {

/// Value of one 64-bit word position.
pub open spec fn word_base() -> nat {
    18446744073709551616
}

/// An unsigned 256-bit integer held as four 64-bit words, least significant
/// first (the layout of `U256` in the Ethereum crates).
#[derive(Clone, Copy, Debug, PartialEq, Eq, Structural)]
pub struct Uint256 {
    pub w0: u64,
    pub w1: u64,
    pub w2: u64,
    pub w3: u64,
}

impl Uint256 {
    /// The number the four words stand for.
    pub open spec fn value(self) -> nat {
        self.w0 as nat + 18446744073709551616 * (self.w1 as nat + 18446744073709551616 * (
        self.w2 as nat + 18446744073709551616 * self.w3 as nat))
    }

    /// Builds the integer from its words, least significant first.
    pub fn from_words(words: [u64; 4]) -> (r: Uint256)
        ensures
            r.w0 == words[0],
            r.w1 == words[1],
            r.w2 == words[2],
            r.w3 == words[3],
    {
        Uint256 { w0: words[0], w1: words[1], w2: words[2], w3: words[3] }
    }

    /// The words, least significant first.
    pub fn to_words(&self) -> (r: [u64; 4])
        ensures
            r[0] == self.w0,
            r[1] == self.w1,
            r[2] == self.w2,
            r[3] == self.w3,
    {
        [self.w0, self.w1, self.w2, self.w3]
    }

    pub fn from_u64(v: u64) -> (r: Uint256)
        ensures
            r.value() == v as nat,
    {
        Uint256 { w0: v, w1: 0, w2: 0, w3: 0 }
    }

    pub fn is_zero(&self) -> (r: bool)
        ensures
            r == (self.value() == 0),
    {
        self.w0 == 0 && self.w1 == 0 && self.w2 == 0 && self.w3 == 0
    }

    /// One less, or `None` at zero: a decrement never wraps around.
    pub fn checked_dec(&self) -> (r: Option<Uint256>)
        ensures
            r is None <==> self.value() == 0,
            r matches Some(d) ==> d.value() + 1 == self.value(),
    {
        if self.w0 > 0 {
            Some(Uint256 { w0: self.w0 - 1, ..*self })
        } else if self.w1 > 0 {
            Some(Uint256 { w0: u64::MAX, w1: self.w1 - 1, ..*self })
        } else if self.w2 > 0 {
            Some(Uint256 { w0: u64::MAX, w1: u64::MAX, w2: self.w2 - 1, w3: self.w3 })
        } else if self.w3 > 0 {
            Some(Uint256 { w0: u64::MAX, w1: u64::MAX, w2: u64::MAX, w3: self.w3 - 1 })
        } else {
            None
        }
    }
}

} // verus!
