use auction_ledger::auction::AuctionLedger;
use auction_ledger::auction::CreateAuctionItem;
use auction_ledger::bids::check_funds;
use auction_ledger::bids::BidLedger;
use auction_ledger::bids::CreateBid;
use auction_ledger::identity::Identity;
use auction_ledger::proposal::CreateProposal;
use auction_ledger::proposal::ProposalLedger;
use auction_ledger::types::AuctionChoice;
use auction_ledger::types::AuctionError;
use auction_ledger::types::BidError;
use auction_ledger::types::Choice;
use auction_ledger::types::VoteError;

fn ident(tag: u8) -> Identity {
    Identity::from_bytes(vec![tag, tag + 1, tag + 2])
}

fn plain_item(start_price: u32) -> CreateAuctionItem {
    CreateAuctionItem {
        title: "Test Item".to_string(),
        description: "Test Description".to_string(),
        start_price,
        is_active: true,
    }
}

#[test]
fn test_create_proposal() {
    let caller = ident(1);
    let mut ledger = ProposalLedger::new();
    let description = "Test Proposal".to_string();
    let is_active = true;
    let proposal = CreateProposal { description: description.clone(), is_active };

    if let Err(error) = ledger.create_proposal(&caller, proposal) {
        panic!("Error creating proposal: {:?}", error);
    }

    let proposal_key = 1u64;
    match ledger.get_proposal(proposal_key) {
        Some(stored_proposal) => {
            assert_eq!(stored_proposal.description, description);
            assert_eq!(stored_proposal.is_active, is_active);
        }
        None => panic!("Error retrieving proposal: {:?}", proposal_key),
    }
}

#[test]
fn test_place_bid() {
    let caller = ident(1);
    let mut auctions = AuctionLedger::new();
    let mut proposals = ProposalLedger::new();
    let item_key = 1u64;
    let auction_item = plain_item(100);
    let proposal = CreateProposal { description: "Test Proposal".to_string(), is_active: true };

    if let Err(error) = auctions.create_auction_item(&caller, auction_item) {
        panic!("Error creating auction item: {:?}", error);
    }

    if let Err(error) = proposals.create_proposal(&caller, proposal) {
        panic!("Error creating proposal: {:?}", error);
    }

    let bid_amount = 150;
    let place_bid_choice = AuctionChoice::PlaceBid(item_key, bid_amount);

    if let Err(error) = auctions.place_bid(&caller, place_bid_choice) {
        panic!("Error placing bid: {:?}", error);
    }

    match auctions.get_auction_item(item_key) {
        Some(updated_item) => {
            assert_eq!(updated_item.current_highest_bid, bid_amount);
            assert_eq!(updated_item.current_highest_bidder, Some(caller.clone()));
        }
        None => panic!("Error retrieving auction item: {:?}", item_key),
    }

    let withdraw_bid_choice = AuctionChoice::WithdrawBid(item_key);

    if let Err(error) = auctions.withdraw_bid(&caller, withdraw_bid_choice) {
        panic!("Error withdrawing bid: {:?}", error);
    }

    match auctions.get_auction_item(item_key) {
        Some(withdrawn_item) => {
            assert_eq!(withdrawn_item.current_highest_bid, 0);
            assert_eq!(withdrawn_item.current_highest_bidder, None);
        }
        None => panic!("Error retrieving auction item: {:?}", item_key),
    }
}

#[test]
fn bid_scenario_from_zero() {
    let owner = ident(1);
    let bidder = ident(5);
    let other = ident(9);
    let mut auctions = AuctionLedger::new();
    let key = auctions.create_auction_item(&owner, plain_item(0)).unwrap();

    assert_eq!(auctions.place_bid(&bidder, AuctionChoice::PlaceBid(key, 150)), Ok(()));
    let item = auctions.get_auction_item(key).unwrap();
    assert_eq!(item.current_highest_bid, 150);

    assert_eq!(
        auctions.place_bid(&other, AuctionChoice::PlaceBid(key, 100)),
        Err(BidError::BidAmountLessThanCurrent)
    );

    assert_eq!(auctions.withdraw_bid(&bidder, AuctionChoice::WithdrawBid(key)), Ok(()));
    let reset = auctions.get_auction_item(key).unwrap();
    assert_eq!(reset.current_highest_bid, 0);
    assert_eq!(reset.current_highest_bidder, None);

    assert_eq!(
        auctions.end_auction(&owner, AuctionChoice::EndAuction(key)),
        Err(AuctionError::NoBids)
    );
    let unchanged = auctions.get_auction_item(key).unwrap();
    assert!(unchanged.is_active);
    assert_eq!(unchanged.current_highest_bid, 0);
}

#[test]
fn place_bid_rejections() {
    let owner = ident(1);
    let bidder = ident(5);
    let mut auctions = AuctionLedger::new();
    let key = auctions.create_auction_item(&owner, plain_item(10)).unwrap();

    assert_eq!(
        auctions.place_bid(&bidder, AuctionChoice::PlaceBid(77, 50)),
        Err(BidError::NoSuchAuction)
    );
    assert_eq!(
        auctions.place_bid(&bidder, AuctionChoice::WithdrawBid(key)),
        Err(BidError::InvalidChoice)
    );
    assert_eq!(auctions.place_bid(&bidder, AuctionChoice::PlaceBid(key, 50)), Ok(()));
    assert_eq!(
        auctions.place_bid(&bidder, AuctionChoice::PlaceBid(key, 60)),
        Err(BidError::AlreadyHighestBidder)
    );
}

#[test]
fn withdraw_and_increase_require_the_bidder() {
    let owner = ident(1);
    let bidder = ident(5);
    let other = ident(9);
    let mut auctions = AuctionLedger::new();
    let key = auctions.create_auction_item(&owner, plain_item(0)).unwrap();

    assert_eq!(
        auctions.withdraw_bid(&other, AuctionChoice::WithdrawBid(key)),
        Err(BidError::NotBidder)
    );
    assert_eq!(auctions.place_bid(&bidder, AuctionChoice::PlaceBid(key, 20)), Ok(()));
    assert_eq!(
        auctions.increase_bid(&other, AuctionChoice::IncreaseBid(key, 30)),
        Err(BidError::NotBidder)
    );
    assert_eq!(
        auctions.increase_bid(&bidder, AuctionChoice::IncreaseBid(key, 20)),
        Err(BidError::BidAmountLessThanCurrent)
    );
    assert_eq!(auctions.increase_bid(&bidder, AuctionChoice::IncreaseBid(key, 30)), Ok(()));
    let item = auctions.get_auction_item(key).unwrap();
    assert_eq!(item.current_highest_bid, 30);

    assert_eq!(auctions.withdraw_bid(&bidder, AuctionChoice::WithdrawBid(key)), Ok(()));
    assert_eq!(
        auctions.withdraw_bid(&bidder, AuctionChoice::WithdrawBid(key)),
        Err(BidError::NotBidder)
    );
}

#[test]
fn end_auction_transfers_ownership_once() {
    let owner = ident(1);
    let bidder = ident(5);
    let mut auctions = AuctionLedger::new();
    let key = auctions.create_auction_item(&owner, plain_item(0)).unwrap();
    assert_eq!(auctions.place_bid(&bidder, AuctionChoice::PlaceBid(key, 40)), Ok(()));

    assert_eq!(
        auctions.end_auction(&bidder, AuctionChoice::EndAuction(key)),
        Err(AuctionError::AccessRejected)
    );
    assert_eq!(auctions.end_auction(&owner, AuctionChoice::EndAuction(key)), Ok(()));

    let closed = auctions.get_auction_item(key).unwrap();
    assert!(!closed.is_active);
    assert_eq!(closed.owner, bidder);

    assert_eq!(
        auctions.end_auction(&bidder, AuctionChoice::EndAuction(key)),
        Err(AuctionError::AuctionIsNotActive)
    );
    assert_eq!(
        auctions.place_bid(&owner, AuctionChoice::PlaceBid(key, 99)),
        Err(BidError::AuctionIsNotActive)
    );
}

#[test]
fn find_most_bidded_prefers_lowest_key() {
    let owner = ident(1);
    let bidder = ident(5);
    let mut auctions = AuctionLedger::new();
    assert!(auctions.find_most_bidded_item().is_none());

    let k1 = auctions.create_auction_item(&owner, plain_item(0)).unwrap();
    let k2 = auctions.create_auction_item(&owner, plain_item(0)).unwrap();
    let k3 = auctions.create_auction_item(&owner, plain_item(0)).unwrap();
    assert_eq!(auctions.get_auction_item_count(), 3);
    assert!(auctions.find_most_bidded_item().is_none());

    assert_eq!(auctions.place_bid(&bidder, AuctionChoice::PlaceBid(k2, 10)), Ok(()));
    assert_eq!(auctions.place_bid(&bidder, AuctionChoice::PlaceBid(k3, 90)), Ok(()));
    let found = auctions.find_most_bidded_item().unwrap();
    assert_eq!(found.current_highest_bid, 10);

    assert_eq!(auctions.place_bid(&bidder, AuctionChoice::PlaceBid(k1, 5)), Ok(()));
    let found = auctions.find_most_bidded_item().unwrap();
    assert_eq!(found.current_highest_bid, 5);
}

#[test]
fn cast_vote_counts_each_identity_once() {
    let owner = ident(1);
    let voter = ident(5);
    let other = ident(9);
    let mut proposals = ProposalLedger::new();
    let key = proposals
        .create_proposal(&owner, CreateProposal {
            description: "Test Proposal".to_string(),
            is_active: true,
        })
        .unwrap();

    assert_eq!(
        proposals.cast_vote(&voter, 42, Choice::Approve),
        Err(VoteError::NoSuchProposal)
    );
    assert_eq!(proposals.cast_vote(&voter, key, Choice::Approve), Ok(()));
    assert_eq!(
        proposals.cast_vote(&voter, key, Choice::Reject),
        Err(VoteError::AlreadyVoted)
    );

    let stored = proposals.get_proposal(key).unwrap();
    assert_eq!(stored.approve, 1);
    assert_eq!(stored.reject, 0);
    assert_eq!(stored.pass, 0);
    assert_eq!(stored.voted.len(), 1);

    assert_eq!(proposals.cast_vote(&other, key, Choice::Pass), Ok(()));
    let stored = proposals.get_proposal(key).unwrap();
    assert_eq!(stored.approve, 1);
    assert_eq!(stored.pass, 1);
}

#[test]
fn cast_vote_requires_active_proposal() {
    let owner = ident(1);
    let voter = ident(5);
    let mut proposals = ProposalLedger::new();
    let key = proposals
        .create_proposal(&owner, CreateProposal {
            description: "closed from the start".to_string(),
            is_active: false,
        })
        .unwrap();
    assert_eq!(
        proposals.cast_vote(&voter, key, Choice::Approve),
        Err(VoteError::ProposalIsNotActive)
    );
}

#[test]
fn check_funds_compares_balance() {
    assert_eq!(check_funds(99, 100), Err(BidError::NotEnoughFunds));
    assert_eq!(check_funds(100, 100), Ok(()));
    assert_eq!(check_funds(101, 100), Ok(()));
}

#[test]
fn record_bid_follows_transfer_outcome() {
    let caller = ident(5);
    let mut bids = BidLedger::new();
    let details = CreateBid {
        description: "payment-backed".to_string(),
        auction: 7,
        currency: "ICP".to_string(),
        amount: 250,
        is_active: true,
        bid_amount: 100,
    };

    let failed = bids.record_bid(&caller, details, false);
    assert_eq!(failed, Err(BidError::TransferError));

    let details = CreateBid {
        description: "payment-backed".to_string(),
        auction: 7,
        currency: "ICP".to_string(),
        amount: 250,
        is_active: true,
        bid_amount: 100,
    };
    let key = bids.record_bid(&caller, details, true).unwrap();
    let stored = bids.get_bid(key).unwrap();
    assert_eq!(stored.auction, 7);
    assert_eq!(stored.amount, 250);
    assert_eq!(stored.currency, "ICP");
    assert_eq!(stored.owner, caller);
    assert!(stored.is_active);
    assert!(bids.get_bid(key + 1).is_none());
}

#[test]
fn generated_bid_ids_are_fresh() {
    let mut bids = BidLedger::new();
    let a = bids.generate_unique_bid_id();
    let b = bids.generate_unique_bid_id();
    assert_ne!(a, b);
    assert!(bids.get_bid(a).is_none());
    assert!(bids.get_bid(b).is_none());
}

#[test]
fn oversized_record_is_rejected() {
    let owner = ident(1);
    let mut auctions = AuctionLedger::new();
    let huge = CreateAuctionItem {
        title: "x".repeat(6000),
        description: String::new(),
        start_price: 0,
        is_active: true,
    };
    assert_eq!(
        auctions.create_auction_item(&owner, huge),
        Err(AuctionError::UpdateError)
    );
    assert_eq!(auctions.get_auction_item_count(), 0);

    let mut proposals = ProposalLedger::new();
    let huge = CreateProposal { description: "y".repeat(6000), is_active: true };
    assert_eq!(proposals.create_proposal(&owner, huge), Err(VoteError::UpdateError));
}

#[test]
fn end_auction_rejects_missing_key_and_wrong_choice() {
    let owner = ident(1);
    let mut auctions = AuctionLedger::new();
    assert_eq!(
        auctions.end_auction(&owner, AuctionChoice::EndAuction(3)),
        Err(AuctionError::NoSuchAuction)
    );
    assert_eq!(
        auctions.end_auction(&owner, AuctionChoice::CreateAuctionItem),
        Err(AuctionError::InvalidChoice)
    );
}

#[test]
fn partitions_do_not_share_storage() {
    let owner = ident(1);
    let mut first = AuctionLedger::new();
    let mut second = AuctionLedger::new();

    let key = first.create_auction_item(&owner, plain_item(25)).unwrap();
    assert_eq!(first.get_auction_item_count(), 1);
    assert_eq!(second.get_auction_item_count(), 0);
    assert!(second.get_auction_item(key).is_none());

    let other_key = second.create_auction_item(&owner, plain_item(99)).unwrap();
    assert_eq!(first.get_auction_item(key).unwrap().current_highest_bid, 25);
    assert_eq!(second.get_auction_item(other_key).unwrap().current_highest_bid, 99);
}
