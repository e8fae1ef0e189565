//! Closed error kinds per operation family, vote choices, and the auction
//! operation selector.
use vstd::prelude::*;

verus! {

/// Failure kinds of the voting operations.
#[derive(Debug, PartialEq, Eq, Clone, Copy)]
pub enum VoteError {
    AlreadyVoted,
    ProposalIsNotActive,
    NoSuchProposal,
    AccessRejected,
    UpdateError,
}

/// Failure kinds of the auction-closing operations.
#[derive(Debug, PartialEq, Eq, Clone, Copy)]
pub enum AuctionError {
    NoSuchAuction,
    AccessRejected,
    AuctionIsNotActive,
    NoBids,
    UpdateError,
    InvalidChoice,
}

/// Failure kinds of the bidding operations.
#[derive(Debug, PartialEq, Eq, Clone, Copy)]
pub enum BidError {
    NoSuchAuction,
    AuctionIsNotActive,
    AlreadyHighestBidder,
    BidAmountLessThanCurrent,
    NotBidder,
    NotEnoughFunds,
    TransferError,
    UpdateError,
    InvalidChoice,
}

/// A vote on a governance proposal.
#[derive(Debug, PartialEq, Eq, Clone, Copy)]
pub enum Choice {
    Approve,
    Reject,
    Pass,
}

/// Selects one auction operation together with its arguments.
#[derive(Debug, PartialEq, Eq, Clone, Copy)]
pub enum AuctionChoice {
    CreateAuctionItem,
    PlaceBid(u64, u32),
    EndAuction(u64),
    WithdrawBid(u64),
    IncreaseBid(u64, u32),
}

} // verus!
