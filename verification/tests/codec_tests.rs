use auction_ledger::auction::decode_auction_item;
use auction_ledger::auction::encode_auction_item;
use auction_ledger::auction::AuctionItem;
use auction_ledger::bids::decode_bid;
use auction_ledger::bids::encode_bid;
use auction_ledger::bids::Bid;
use auction_ledger::identity::Identity;
use auction_ledger::items::decode_item;
use auction_ledger::items::encode_item;
use auction_ledger::items::CreateItem;
use auction_ledger::items::Item;
use auction_ledger::items::ItemLedger;
use auction_ledger::proposal::decode_proposal;
use auction_ledger::proposal::encode_proposal;
use auction_ledger::proposal::Proposal;

fn sample_bid(tag: u8) -> Bid {
    Bid {
        description: format!("bid number {}", tag),
        auction: tag as u64,
        owner: Identity::from_bytes(vec![tag; 4]),
        currency: "ICP".to_string(),
        amount: 100 + tag as u32,
        is_active: tag % 2 == 0,
    }
}

#[test]
fn proposal_codec_round_trip() {
    let p = Proposal {
        description: "tariffs on déjà-vu".to_string(),
        approve: 3,
        reject: 1,
        pass: 0,
        is_active: true,
        voted: vec![
            Identity::from_bytes(vec![1, 2]),
            Identity::from_bytes(vec![]),
            Identity::from_bytes(vec![3, 4, 5]),
        ],
        owner: Identity::from_bytes(vec![9; 29]),
    };
    let bytes = encode_proposal(&p);
    let back = decode_proposal(&bytes).unwrap();
    assert_eq!(back.description, p.description);
    assert_eq!(back.approve, 3);
    assert_eq!(back.reject, 1);
    assert_eq!(back.pass, 0);
    assert!(back.is_active);
    assert_eq!(back.voted, p.voted);
    assert_eq!(back.owner, p.owner);
}

#[test]
fn auction_item_codec_round_trip() {
    let item = AuctionItem {
        title: "painting".to_string(),
        description: "oil on canvas".to_string(),
        owner: Identity::from_bytes(vec![7, 7]),
        current_highest_bidder: Some(Identity::from_bytes(vec![8])),
        current_highest_bid: 4242,
        is_active: false,
    };
    let bytes = encode_auction_item(&item);
    let back = decode_auction_item(&bytes).unwrap();
    assert_eq!(back.title, item.title);
    assert_eq!(back.description, item.description);
    assert_eq!(back.owner, item.owner);
    assert_eq!(back.current_highest_bidder, item.current_highest_bidder);
    assert_eq!(back.current_highest_bid, 4242);
    assert!(!back.is_active);
}

#[test]
fn bid_codec_round_trip() {
    let bid = sample_bid(3);
    let bytes = encode_bid(&bid);
    let back = decode_bid(&bytes).unwrap();
    assert_eq!(back.description, bid.description);
    assert_eq!(back.auction, 3);
    assert_eq!(back.owner, bid.owner);
    assert_eq!(back.currency, "ICP");
    assert_eq!(back.amount, 103);
    assert!(!back.is_active);
}

#[test]
fn item_codec_round_trip_with_history() {
    let item = Item {
        title: "estate sale".to_string(),
        description: "everything must go".to_string(),
        owner: Identity::from_bytes(vec![1]),
        new_owner: Identity::from_bytes(vec![2]),
        currency: "ICP".to_string(),
        amount: 5000,
        is_active: true,
        start_time: "2024-01-01T00:00:00Z".to_string(),
        end_time: "2024-02-01T00:00:00Z".to_string(),
        bid: vec![sample_bid(2), sample_bid(4), sample_bid(6)],
    };
    let bytes = encode_item(&item);
    let back = decode_item(&bytes).unwrap();
    assert_eq!(back.title, item.title);
    assert_eq!(back.new_owner, item.new_owner);
    assert_eq!(back.start_time, item.start_time);
    assert_eq!(back.end_time, item.end_time);
    assert_eq!(back.bid.len(), 3);
    assert_eq!(back.bid[1].description, "bid number 4");
    assert_eq!(back.bid[2].amount, 106);
}

#[test]
fn decode_rejects_malformed_bytes() {
    assert!(decode_auction_item(&vec![]).is_none());
    assert!(decode_proposal(&vec![0, 1, 2]).is_none());
    let item = AuctionItem {
        title: "t".to_string(),
        description: "d".to_string(),
        owner: Identity::from_bytes(vec![1]),
        current_highest_bidder: None,
        current_highest_bid: 0,
        is_active: true,
    };
    let mut bytes = encode_auction_item(&item);
    bytes.push(0);
    assert!(decode_auction_item(&bytes).is_none());
}

#[test]
fn created_item_starts_with_empty_history() {
    let owner = Identity::from_bytes(vec![4, 4]);
    let mut items = ItemLedger::new();
    let key = items
        .create_item(&owner, CreateItem {
            title: "lot 1".to_string(),
            description: "boxed books".to_string(),
            is_active: true,
            start_time: "start".to_string(),
            end_time: "end".to_string(),
            currency: "ICP".to_string(),
            amount: 12,
        })
        .unwrap();
    let stored = items.get_item(key).unwrap();
    assert_eq!(stored.title, "lot 1");
    assert_eq!(stored.owner, owner);
    assert_eq!(stored.new_owner, owner);
    assert!(stored.bid.is_empty());
    assert!(items.get_item(key + 1).is_none());
}
