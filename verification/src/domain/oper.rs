//! The operations a player may take during a turn.

use vstd::prelude::*;

use crate::domain::card::Card;

verus! {

/// An operation offered to, and chosen by, the player whose turn it is.
#[derive(Clone, Copy, Debug, PartialEq, Eq, Structural)]
pub enum Oper {
    /// End the turn.
    EndRound,
    /// Look at three cards, keep one (observatory).
    Card3Choose1,
    /// Look at two cards, keep one.
    Card2Choose1,
    /// Draw two cards and keep both (library).
    Card2Choose2,
    /// Take this much gold.
    Gold(u32),
    /// Build this card from the hand.
    Build(Card),
    /// Sell this card from the hand for one gold (laboratory).
    SellCard(Card),
    /// Pay two gold to draw three cards (smithy).
    BuyCard,
}

} // verus!
