//! Token amounts, counted in indivisible nanos.

use vstd::prelude::*;

verus! {

/// An amount of tokens, held as a number of nanos.
#[derive(Clone, Copy, Debug, PartialEq, Eq, Structural, PartialOrd, Ord, Hash)]
pub struct Token {
    nanos: u64,
}

impl View for Token {
    type V = nat;

    open spec fn view(&self) -> nat {
        self.as_nano() as nat
    }
}

impl Token {
    /// The number of nanos, for use in contracts.
    pub closed spec fn spec_as_nano(self) -> u64 {
        self.nanos
    }

    /// The amount of no tokens at all.
    pub fn zero() -> (t: Token)
        ensures
            t.as_nano() == 0,
    {
        Token { nanos: 0 }
    }

    /// The amount of `value` nanos, for use in contracts.
    pub closed spec fn spec_from_nano(value: u64) -> Token {
        Token { nanos: value }
    }

    /// The amount of `value` nanos.
    #[verifier::when_used_as_spec(spec_from_nano)]
    pub fn from_nano(value: u64) -> (t: Token)
        ensures
            t == Token::from_nano(value),
            t.as_nano() == value,
    {
        Token { nanos: value }
    }

    /// The amount as a number of nanos.
    #[verifier::when_used_as_spec(spec_as_nano)]
    pub fn as_nano(self) -> (n: u64)
        ensures
            n == self.as_nano(),
    {
        self.nanos
    }

    /// `self + rhs`, or `None` where the sum does not fit.
    pub fn checked_add(self, rhs: Token) -> (sum: Option<Token>)
        ensures
            self.as_nano() + rhs.as_nano() <= u64::MAX ==> sum.is_some() && sum.unwrap().as_nano()
                == self.as_nano() + rhs.as_nano(),
            self.as_nano() + rhs.as_nano() > u64::MAX ==> sum.is_none(),
    {
        match self.nanos.checked_add(rhs.nanos) {
            Some(n) => Some(Token { nanos: n }),
            None => None,
        }
    }

    /// `self - rhs`, or `None` where `rhs` is the larger.
    pub fn checked_sub(self, rhs: Token) -> (diff: Option<Token>)
        ensures
            self.as_nano() >= rhs.as_nano() ==> diff.is_some() && diff.unwrap().as_nano()
                == self.as_nano() - rhs.as_nano(),
            self.as_nano() < rhs.as_nano() ==> diff.is_none(),
    {
        match self.nanos.checked_sub(rhs.nanos) {
            Some(n) => Some(Token { nanos: n }),
            None => None,
        }
    }
}

/// The amount of a number of nanos has that number of nanos.
pub broadcast proof fn lemma_token_nanos(value: u64)
    ensures
        (#[trigger] Token::from_nano(value)).as_nano() == value,
{
}

/// An amount is the amount of its nanos.
pub broadcast proof fn lemma_token_of_nanos(amount: Token)
    ensures
        #[trigger] Token::from_nano(amount.as_nano()) == amount,
{
}

} // verus!
