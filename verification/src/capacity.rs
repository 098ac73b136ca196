//! The supply of tokens, and the share of it that a section may manage.

use crate::token::Token;
use vstd::prelude::*;

verus! {

/// The number of nanos that the whole network may hold.
pub const MAX_SUPPLY: u64 = 0x1_0000_0000;

/// The share of the supply that one of `section_count` sections may manage, for use in
/// contracts.
pub open spec fn section_share(section_count: u64) -> nat
    recommends
        section_count > 0,
{
    (MAX_SUPPLY / section_count) as nat
}

/// The share of the supply that one of `section_count` sections may manage: an equal
/// part of the whole. A network without sections has no share to give.
pub fn section_supply(section_count: u64) -> (supply: Option<Token>)
    ensures
        section_count == 0 ==> supply is None,
        section_count > 0 ==> supply == Some(Token::from_nano((MAX_SUPPLY / section_count) as u64)),
        supply matches Some(s) ==> s@ == section_share(section_count) && s@ * section_count
            <= MAX_SUPPLY,
{
    if section_count == 0 {
        None
    } else {
        let share: u64 = MAX_SUPPLY / section_count;
        assert(share * section_count <= MAX_SUPPLY) by (nonlinear_arith)
            requires
                share == MAX_SUPPLY / section_count,
                section_count > 0,
        ;
        Some(Token::from_nano(share))
    }
}

} // verus!
