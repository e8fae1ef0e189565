//! The auction ledger: auction items in one storage partition, and the
//! bidding state machine over them. Every transition validates its
//! preconditions against the stored record, then performs the single write.
use vstd::prelude::*;
use vstd::utf8::encode_utf8;

use crate::codec::lemma_sp_bool;
use crate::codec::lemma_sp_bytes;
use crate::codec::lemma_sp_opt_bytes;
use crate::codec::lemma_sp_str;
use crate::codec::lemma_sp_u32;
use crate::codec::p_bool;
use crate::codec::p_bytes;
use crate::codec::p_opt_bytes;
use crate::codec::p_str;
use crate::codec::p_u32;
use crate::codec::enc_bool;
use crate::codec::enc_bytes;
use crate::codec::enc_str;
use crate::codec::enc_u32;
use crate::codec::sp_bool;
use crate::codec::sp_bytes;
use crate::codec::sp_opt_bytes;
use crate::codec::sp_str;
use crate::codec::sp_u32;
use crate::codec::spec_enc_bool;
use crate::codec::spec_enc_bytes;
use crate::codec::spec_enc_opt_bytes;
use crate::codec::spec_enc_str;
use crate::codec::spec_enc_u32;
use crate::identity::Identity;
use crate::store::region_view;
use crate::store::Region;
use crate::types::AuctionChoice;
use crate::types::AuctionError;
use crate::types::BidError;
use crate::MAX_VALUE_SIZE;

verus! {

/// One auction item: the current extremum of the bidding state machine.
pub struct AuctionItem {
    pub title: String,
    pub description: String,
    pub owner: Identity,
    pub current_highest_bidder: Option<Identity>,
    pub current_highest_bid: u32,
    pub is_active: bool,
}

/// The mathematical view of an auction item.
pub struct AuctionItemView {
    pub title: Seq<char>,
    pub description: Seq<char>,
    pub owner: Seq<u8>,
    pub current_highest_bidder: Option<Seq<u8>>,
    pub current_highest_bid: u32,
    pub is_active: bool,
}

impl View for AuctionItem {
    type V = AuctionItemView;

    open spec fn view(&self) -> AuctionItemView {
        AuctionItemView {
            title: self.title@,
            description: self.description@,
            owner: self.owner@,
            current_highest_bidder: match self.current_highest_bidder {
                None => None,
                Some(id) => Some(id@),
            },
            current_highest_bid: self.current_highest_bid,
            is_active: self.is_active,
        }
    }
}

/// Field constraints under which an auction item is encodable losslessly.
pub open spec fn wf_auction_view(v: AuctionItemView) -> bool {
    &&& encode_utf8(v.title).len() <= u64::MAX
    &&& encode_utf8(v.description).len() <= u64::MAX
    &&& v.owner.len() <= u64::MAX
    &&& (v.current_highest_bidder matches Some(bb) ==> bb.len() <= u64::MAX)
}

/// The stored encoding of an auction item.
pub open spec fn spec_enc_auction(v: AuctionItemView) -> Seq<u8> {
    spec_enc_str(v.title) + spec_enc_str(v.description) + spec_enc_bytes(v.owner)
        + spec_enc_opt_bytes(v.current_highest_bidder) + spec_enc_u32(v.current_highest_bid)
        + spec_enc_bool(v.is_active)
}

/// Parses a stored auction item; fails on anything but an exact encoding.
pub open spec fn sp_auction(b: Seq<u8>) -> Option<AuctionItemView> {
    match sp_str(b, 0) {
        None => None,
        Some((title, i1)) => match sp_str(b, i1) {
            None => None,
            Some((description, i2)) => match sp_bytes(b, i2) {
                None => None,
                Some((owner, i3)) => match sp_opt_bytes(b, i3) {
                    None => None,
                    Some((bidder, i4)) => match sp_u32(b, i4) {
                        None => None,
                        Some((bid, i5)) => match sp_bool(b, i5) {
                            None => None,
                            Some((active, i6)) => if i6 == b.len() {
                                Some(
                                    AuctionItemView {
                                        title,
                                        description,
                                        owner,
                                        current_highest_bidder: bidder,
                                        current_highest_bid: bid,
                                        is_active: active,
                                    },
                                )
                            } else {
                                None
                            },
                        },
                    },
                },
            },
        },
    }
}

/// The parser inverts the encoder: decoding a stored record yields exactly
/// the record that was encoded.
pub proof fn lemma_auction_codec(v: AuctionItemView)
    requires
        wf_auction_view(v),
    ensures
        sp_auction(spec_enc_auction(v)) == Some(v),
{
    vstd::bytes::lemma_auto_spec_u64_to_from_le_bytes();
    vstd::bytes::lemma_auto_spec_u32_to_from_le_bytes();
    assert(vstd::bytes::spec_u32_to_le_bytes(v.current_highest_bid).len() == 4);
    let b = spec_enc_auction(v);
    let e1 = spec_enc_str(v.title);
    let e2 = spec_enc_str(v.description);
    let e3 = spec_enc_bytes(v.owner);
    let e4 = spec_enc_opt_bytes(v.current_highest_bidder);
    let e5 = spec_enc_u32(v.current_highest_bid);
    let e6 = spec_enc_bool(v.is_active);
    let o1 = e1.len() as int;
    let o2 = o1 + e2.len();
    let o3 = o2 + e3.len();
    let o4 = o3 + e4.len();
    let o5 = o4 + e5.len();
    let o6 = o5 + e6.len();
    assert(b.len() == o6);
    assert forall|t: int| 0 <= t < e1.len() implies b[0 + t] == #[trigger] e1[t] by {}
    assert(b.subrange(0, o1) =~= e1);
    lemma_sp_str(b, 0, v.title);
    assert forall|t: int| 0 <= t < e2.len() implies b[o1 + t] == #[trigger] e2[t] by {}
    assert(b.subrange(o1, o2) =~= e2);
    lemma_sp_str(b, o1, v.description);
    assert forall|t: int| 0 <= t < e3.len() implies b[o2 + t] == #[trigger] e3[t] by {}
    assert(b.subrange(o2, o3) =~= e3);
    lemma_sp_bytes(b, o2, v.owner);
    assert forall|t: int| 0 <= t < e4.len() implies b[o3 + t] == #[trigger] e4[t] by {}
    assert(b.subrange(o3, o4) =~= e4);
    lemma_sp_opt_bytes(b, o3, v.current_highest_bidder);
    assert forall|t: int| 0 <= t < e5.len() implies b[o4 + t] == #[trigger] e5[t] by {}
    assert(b.subrange(o4, o5) =~= e5);
    lemma_sp_u32(b, o4, v.current_highest_bid);
    assert forall|t: int| 0 <= t < e6.len() implies b[o5 + t] == #[trigger] e6[t] by {}
    assert(b.subrange(o5, o6) =~= e6);
    lemma_sp_bool(b, o5, v.is_active);
}

/// Two equal encodings come from the same record.
pub proof fn lemma_enc_auction_injective(v1: AuctionItemView, v2: AuctionItemView)
    requires
        wf_auction_view(v1),
        wf_auction_view(v2),
        spec_enc_auction(v1) == spec_enc_auction(v2),
    ensures
        v1 == v2,
{
    lemma_auction_codec(v1);
    lemma_auction_codec(v2);
}

/// Encodes an auction item for storage.
pub fn encode_auction_item(item: &AuctionItem) -> (r: Vec<u8>)
    ensures
        r@ == spec_enc_auction(item@),
        wf_auction_view(item@),
{
    // Reading each field's byte length here puts the bound the 64-bit
    // length prefixes need into scope for the proof.
    let _title_len = item.title.as_str().as_bytes().len();
    let _descr_len = item.description.as_str().as_bytes().len();
    let _owner_len = item.owner.bytes.len();
    let mut out: Vec<u8> = Vec::new();
    enc_str(&mut out, item.title.as_str());
    enc_str(&mut out, item.description.as_str());
    enc_bytes(&mut out, item.owner.bytes.as_slice());
    match &item.current_highest_bidder {
        None => {
            out.push(0u8);
        },
        Some(id) => {
            let _bidder_len = id.bytes.len();
            out.push(1u8);
            enc_bytes(&mut out, id.bytes.as_slice());
        },
    }
    enc_u32(&mut out, item.current_highest_bid);
    enc_bool(&mut out, item.is_active);
    proof {
        assert(out@ =~= spec_enc_auction(item@));
    }
    out
}

/// Decodes a stored auction item; `None` on anything but an exact encoding.
pub fn decode_auction_item(b: &Vec<u8>) -> (r: Option<AuctionItem>)
    ensures
        match r {
            Some(item) => sp_auction(b@) == Some(item@) && wf_auction_view(item@),
            None => sp_auction(b@) is None,
        },
{
    let (title, i1) = match p_str(b, 0) {
        None => {
            return None;
        },
        Some(p) => p,
    };
    let (description, i2) = match p_str(b, i1) {
        None => {
            return None;
        },
        Some(p) => p,
    };
    let (owner, i3) = match p_bytes(b, i2) {
        None => {
            return None;
        },
        Some(p) => p,
    };
    let (bidder, i4) = match p_opt_bytes(b, i3) {
        None => {
            return None;
        },
        Some(p) => p,
    };
    let (bid, i5) = match p_u32(b, i4) {
        None => {
            return None;
        },
        Some(p) => p,
    };
    let (active, i6) = match p_bool(b, i5) {
        None => {
            return None;
        },
        Some(p) => p,
    };
    if i6 != b.len() {
        return None;
    }
    let item = AuctionItem {
        title,
        description,
        owner: Identity { bytes: owner },
        current_highest_bidder: match bidder {
            None => None,
            Some(v) => Some(Identity { bytes: v }),
        },
        current_highest_bid: bid,
        is_active: active,
    };
    Some(item)
}


/// Data for creating a new auction item.
pub struct CreateAuctionItem {
    pub title: String,
    pub description: String,
    pub start_price: u32,
    pub is_active: bool,
}

/// The mathematical view of the creation data.
pub struct CreateAuctionItemView {
    pub title: Seq<char>,
    pub description: Seq<char>,
    pub start_price: u32,
    pub is_active: bool,
}

impl View for CreateAuctionItem {
    type V = CreateAuctionItemView;

    open spec fn view(&self) -> CreateAuctionItemView {
        CreateAuctionItemView {
            title: self.title@,
            description: self.description@,
            start_price: self.start_price,
            is_active: self.is_active,
        }
    }
}

/// The record a creation request stores: no bid yet, owned by the creator.
pub open spec fn new_auction_view(c: CreateAuctionItemView, owner: Seq<u8>) -> AuctionItemView {
    AuctionItemView {
        title: c.title,
        description: c.description,
        owner,
        current_highest_bidder: None,
        current_highest_bid: c.start_price,
        is_active: c.is_active,
    }
}

// ---------------------------------------------------------------------------
// The bidding state machine, one item at a time.
// ---------------------------------------------------------------------------

/// Accepts a bid exactly when the item is active, the caller does not already
/// hold the highest bid, and the amount strictly exceeds the current one.
pub open spec fn place_bid_step(v: AuctionItemView, caller: Seq<u8>, amount: u32) -> Result<
    AuctionItemView,
    BidError,
> {
    if !v.is_active {
        Err(BidError::AuctionIsNotActive)
    } else if v.current_highest_bidder == Some(caller) {
        Err(BidError::AlreadyHighestBidder)
    } else if amount <= v.current_highest_bid {
        Err(BidError::BidAmountLessThanCurrent)
    } else {
        Ok(
            AuctionItemView {
                current_highest_bidder: Some(caller),
                current_highest_bid: amount,
                ..v
            },
        )
    }
}

/// Clears the highest bid back to the no-bid state; only the current highest
/// bidder may withdraw.
pub open spec fn withdraw_bid_step(v: AuctionItemView, caller: Seq<u8>) -> Result<
    AuctionItemView,
    BidError,
> {
    if !v.is_active {
        Err(BidError::AuctionIsNotActive)
    } else if v.current_highest_bidder != Some(caller) {
        Err(BidError::NotBidder)
    } else {
        Ok(AuctionItemView { current_highest_bidder: None, current_highest_bid: 0, ..v })
    }
}

/// Raises the highest bid; only the current highest bidder may raise, and the
/// new amount must strictly exceed the current one.
pub open spec fn increase_bid_step(v: AuctionItemView, caller: Seq<u8>, amount: u32) -> Result<
    AuctionItemView,
    BidError,
> {
    if !v.is_active {
        Err(BidError::AuctionIsNotActive)
    } else if v.current_highest_bidder != Some(caller) {
        Err(BidError::NotBidder)
    } else if amount <= v.current_highest_bid {
        Err(BidError::BidAmountLessThanCurrent)
    } else {
        Ok(AuctionItemView { current_highest_bid: amount, ..v })
    }
}

/// Closes the auction: only the owner may close, only once, and only after at
/// least one bid; ownership passes to the final highest bidder.
pub open spec fn end_auction_step(v: AuctionItemView, caller: Seq<u8>) -> Result<
    AuctionItemView,
    AuctionError,
> {
    if caller != v.owner {
        Err(AuctionError::AccessRejected)
    } else if !v.is_active {
        Err(AuctionError::AuctionIsNotActive)
    } else {
        match v.current_highest_bidder {
            None => Err(AuctionError::NoBids),
            Some(bidder) => Ok(AuctionItemView { owner: bidder, is_active: false, ..v }),
        }
    }
}

/// Whether a transition result still fits in one store slot.
pub open spec fn fits_store(v: AuctionItemView) -> bool {
    spec_enc_auction(v).len() <= MAX_VALUE_SIZE as nat
}

/// The ledger-level outcome of a `PlaceBid` call.
pub open spec fn place_bid_outcome(
    m: Map<u64, AuctionItemView>,
    caller: Seq<u8>,
    key: u64,
    amount: u32,
) -> Result<Map<u64, AuctionItemView>, BidError> {
    if !m.contains_key(key) {
        Err(BidError::NoSuchAuction)
    } else {
        match place_bid_step(m[key], caller, amount) {
            Err(e) => Err(e),
            Ok(nv) => if fits_store(nv) {
                Ok(m.insert(key, nv))
            } else {
                Err(BidError::UpdateError)
            },
        }
    }
}

/// The ledger-level outcome of a `WithdrawBid` call.
pub open spec fn withdraw_bid_outcome(
    m: Map<u64, AuctionItemView>,
    caller: Seq<u8>,
    key: u64,
) -> Result<Map<u64, AuctionItemView>, BidError> {
    if !m.contains_key(key) {
        Err(BidError::NoSuchAuction)
    } else {
        match withdraw_bid_step(m[key], caller) {
            Err(e) => Err(e),
            Ok(nv) => if fits_store(nv) {
                Ok(m.insert(key, nv))
            } else {
                Err(BidError::UpdateError)
            },
        }
    }
}

/// The ledger-level outcome of an `IncreaseBid` call.
pub open spec fn increase_bid_outcome(
    m: Map<u64, AuctionItemView>,
    caller: Seq<u8>,
    key: u64,
    amount: u32,
) -> Result<Map<u64, AuctionItemView>, BidError> {
    if !m.contains_key(key) {
        Err(BidError::NoSuchAuction)
    } else {
        match increase_bid_step(m[key], caller, amount) {
            Err(e) => Err(e),
            Ok(nv) => if fits_store(nv) {
                Ok(m.insert(key, nv))
            } else {
                Err(BidError::UpdateError)
            },
        }
    }
}

/// The ledger-level outcome of an `EndAuction` call.
pub open spec fn end_auction_outcome(
    m: Map<u64, AuctionItemView>,
    caller: Seq<u8>,
    key: u64,
) -> Result<Map<u64, AuctionItemView>, AuctionError> {
    if !m.contains_key(key) {
        Err(AuctionError::NoSuchAuction)
    } else {
        match end_auction_step(m[key], caller) {
            Err(e) => Err(e),
            Ok(nv) => if fits_store(nv) {
                Ok(m.insert(key, nv))
            } else {
                Err(AuctionError::UpdateError)
            },
        }
    }
}

/// An item that counts as "bidded": still active, with an accepted bid.
pub open spec fn is_bidded(v: AuctionItemView) -> bool {
    v.is_active && v.current_highest_bidder is Some
}

/// The auction ledger: one storage partition of auction items, keyed from 1
/// upward by a persisted counter.
pub struct AuctionLedger {
    region: Region,
    next_key: u64,
    model: Ghost<Map<u64, AuctionItemView>>,
}

impl AuctionLedger {
    /// The items this ledger holds, as a map from key to item view.
    pub closed spec fn items(&self) -> Map<u64, AuctionItemView> {
        self.model@
    }

    /// The key the next created item will receive.
    pub closed spec fn next(&self) -> u64 {
        self.next_key
    }

    /// The ledger's invariant: the model mirrors the stored bytes, every
    /// stored record is a well-formed encoding within the size bound, and
    /// every key is below the creation counter.
    pub closed spec fn wf(&self) -> bool {
        &&& self.model@.dom() == region_view(self.region).dom()
        &&& self.model@.dom().finite()
        &&& forall|k: u64|
            #[trigger] self.model@.contains_key(k) ==> wf_auction_view(self.model@[k])
                && region_view(self.region)[k] == spec_enc_auction(self.model@[k]) && fits_store(
                self.model@[k],
            )
        &&& 1 <= self.next_key
        &&& forall|k: u64| #[trigger] self.model@.contains_key(k) ==> 1 <= k < self.next_key
    }

    /// A fresh, empty ledger over its own storage partition.
    pub fn new() -> (r: AuctionLedger)
        ensures
            r.wf(),
            r.items() == Map::<u64, AuctionItemView>::empty(),
            r.next() == 1,
    {
        let r = AuctionLedger {
            region: Region::new(),
            next_key: 1,
            model: Ghost(Map::empty()),
        };
        proof {
            assert(r.model@.dom() =~= region_view(r.region).dom());
        }
        r
    }

    /// Reads and decodes the item stored under `key`.
    pub fn get_auction_item(&self, key: u64) -> (r: Option<AuctionItem>)
        requires
            self.wf(),
        ensures
            match r {
                Some(item) => self.items().contains_key(key) && item@ == self.items()[key]
                    && fits_store(item@),
                None => !self.items().contains_key(key),
            },
    {
        self.read_item(key)
    }

    /// The number of items in this partition.
    pub fn get_auction_item_count(&self) -> (n: u64)
        requires
            self.wf(),
        ensures
            n as nat == self.items().dom().len(),
    {
        self.region.len()
    }

    /// Creates a new auction item under the next fresh key, owned by the
    /// caller, with no bid accepted yet. Rejects with `UpdateError` exactly
    /// when the encoded record would exceed the size bound or the key space
    /// is exhausted.
    pub fn create_auction_item(&mut self, caller: &Identity, item: CreateAuctionItem) -> (r:
        Result<u64, AuctionError>)
        requires
            old(self).wf(),
        ensures
            final(self).wf(),
            match r {
                Ok(key) => {
                    &&& old(self).next() < u64::MAX
                    &&& fits_store(new_auction_view(item@, caller@))
                    &&& key == old(self).next()
                    &&& !old(self).items().contains_key(key)
                    &&& final(self).items() == old(self).items().insert(
                        key,
                        new_auction_view(item@, caller@),
                    )
                    &&& final(self).next() == key + 1
                },
                Err(AuctionError::UpdateError) => {
                    &&& final(self).items() == old(self).items()
                    &&& final(self).next() == old(self).next()
                    &&& (old(self).next() == u64::MAX || !fits_store(
                        new_auction_view(item@, caller@),
                    ))
                },
                Err(_) => false,
            },
    {
        let record = AuctionItem {
            title: item.title,
            description: item.description,
            owner: caller.duplicate(),
            current_highest_bidder: None,
            current_highest_bid: item.start_price,
            is_active: item.is_active,
        };
        let enc = encode_auction_item(&record);
        if enc.len() > MAX_VALUE_SIZE as usize {
            return Err(AuctionError::UpdateError);
        }
        if self.next_key == u64::MAX {
            return Err(AuctionError::UpdateError);
        }
        let key = self.next_key;
        self.next_key = key + 1;
        let _prev = self.region.insert(key, enc);
        proof {
            self.model@ = self.model@.insert(key, record@);
            assert(self.model@.dom() =~= region_view(self.region).dom());
        }
        Ok(key)
    }

    /// Looks up `key` and returns the decoded record, which the invariant
    /// guarantees to decode.
    fn read_item(&self, key: u64) -> (r: Option<AuctionItem>)
        requires
            self.wf(),
        ensures
            match r {
                Some(item) => self.items().contains_key(key) && item@ == self.items()[key]
                    && wf_auction_view(item@) && fits_store(item@),
                None => !self.items().contains_key(key),
            },
    {
        match self.region.get(key) {
            None => None,
            Some(bytes) => {
                proof {
                    assert(region_view(self.region).contains_key(key));
                    assert(self.model@.contains_key(key));
                    lemma_auction_codec(self.model@[key]);
                }
                match decode_auction_item(&bytes) {
                    Some(item) => Some(item),
                    None => {
                        proof {
                            assert(false);
                        }
                        None
                    },
                }
            },
        }
    }

    /// Writes `record` under the existing key `key` and updates the model.
    fn write_item(&mut self, key: u64, record: AuctionItem) -> (r: Result<(), ()>)
        requires
            old(self).wf(),
            old(self).items().contains_key(key),
        ensures
            final(self).wf(),
            final(self).next() == old(self).next(),
            match r {
                Ok(()) => fits_store(record@) && final(self).items() == old(self).items().insert(
                    key,
                    record@,
                ),
                Err(()) => !fits_store(record@) && final(self).items() == old(self).items(),
            },
    {
        let enc = encode_auction_item(&record);
        if enc.len() > MAX_VALUE_SIZE as usize {
            return Err(());
        }
        let _prev = self.region.insert(key, enc);
        proof {
            self.model@ = self.model@.insert(key, record@);
            assert(self.model@.dom() =~= region_view(self.region).dom());
        }
        Ok(())
    }

    /// Places a bid on the item named by a `PlaceBid` choice.
    pub fn place_bid(&mut self, caller: &Identity, choice: AuctionChoice) -> (r: Result<
        (),
        BidError,
    >)
        requires
            old(self).wf(),
        ensures
            final(self).wf(),
            final(self).next() == old(self).next(),
            match choice {
                AuctionChoice::PlaceBid(key, amount) => match place_bid_outcome(
                    old(self).items(),
                    caller@,
                    key,
                    amount,
                ) {
                    Ok(nm) => r == Ok::<(), BidError>(()) && final(self).items() == nm,
                    Err(e) => r == Err::<(), BidError>(e) && final(self).items() == old(self).items(),
                },
                _ => r == Err::<(), BidError>(BidError::InvalidChoice) && final(self).items()
                    == old(self).items(),
            },
    {
        match choice {
            AuctionChoice::PlaceBid(key, amount) => {
                let item = match self.read_item(key) {
                    None => {
                        return Err(BidError::NoSuchAuction);
                    },
                    Some(it) => it,
                };
                if !item.is_active {
                    return Err(BidError::AuctionIsNotActive);
                }
                let already = match &item.current_highest_bidder {
                    Some(b) => b.same_as(caller),
                    None => false,
                };
                if already {
                    return Err(BidError::AlreadyHighestBidder);
                }
                if amount <= item.current_highest_bid {
                    return Err(BidError::BidAmountLessThanCurrent);
                }
                let updated = AuctionItem {
                    current_highest_bidder: Some(caller.duplicate()),
                    current_highest_bid: amount,
                    ..item
                };
                match self.write_item(key, updated) {
                    Ok(()) => Ok(()),
                    Err(()) => Err(BidError::UpdateError),
                }
            },
            _ => Err(BidError::InvalidChoice),
        }
    }

    /// Withdraws the caller's highest bid from the item named by a
    /// `WithdrawBid` choice.
    pub fn withdraw_bid(&mut self, caller: &Identity, choice: AuctionChoice) -> (r: Result<
        (),
        BidError,
    >)
        requires
            old(self).wf(),
        ensures
            final(self).wf(),
            final(self).next() == old(self).next(),
            match choice {
                AuctionChoice::WithdrawBid(key) => match withdraw_bid_outcome(
                    old(self).items(),
                    caller@,
                    key,
                ) {
                    Ok(nm) => r == Ok::<(), BidError>(()) && final(self).items() == nm,
                    Err(e) => r == Err::<(), BidError>(e) && final(self).items() == old(self).items(),
                },
                _ => r == Err::<(), BidError>(BidError::InvalidChoice) && final(self).items()
                    == old(self).items(),
            },
    {
        match choice {
            AuctionChoice::WithdrawBid(key) => {
                let item = match self.read_item(key) {
                    None => {
                        return Err(BidError::NoSuchAuction);
                    },
                    Some(it) => it,
                };
                if !item.is_active {
                    return Err(BidError::AuctionIsNotActive);
                }
                let held = match &item.current_highest_bidder {
                    Some(b) => b.same_as(caller),
                    None => false,
                };
                if !held {
                    return Err(BidError::NotBidder);
                }
                let updated = AuctionItem {
                    current_highest_bidder: None,
                    current_highest_bid: 0,
                    ..item
                };
                match self.write_item(key, updated) {
                    Ok(()) => Ok(()),
                    Err(()) => Err(BidError::UpdateError),
                }
            },
            _ => Err(BidError::InvalidChoice),
        }
    }

    /// Raises the caller's own highest bid on the item named by an
    /// `IncreaseBid` choice.
    pub fn increase_bid(&mut self, caller: &Identity, choice: AuctionChoice) -> (r: Result<
        (),
        BidError,
    >)
        requires
            old(self).wf(),
        ensures
            final(self).wf(),
            final(self).next() == old(self).next(),
            match choice {
                AuctionChoice::IncreaseBid(key, amount) => match increase_bid_outcome(
                    old(self).items(),
                    caller@,
                    key,
                    amount,
                ) {
                    Ok(nm) => r == Ok::<(), BidError>(()) && final(self).items() == nm,
                    Err(e) => r == Err::<(), BidError>(e) && final(self).items() == old(self).items(),
                },
                _ => r == Err::<(), BidError>(BidError::InvalidChoice) && final(self).items()
                    == old(self).items(),
            },
    {
        match choice {
            AuctionChoice::IncreaseBid(key, amount) => {
                let item = match self.read_item(key) {
                    None => {
                        return Err(BidError::NoSuchAuction);
                    },
                    Some(it) => it,
                };
                if !item.is_active {
                    return Err(BidError::AuctionIsNotActive);
                }
                let held = match &item.current_highest_bidder {
                    Some(b) => b.same_as(caller),
                    None => false,
                };
                if !held {
                    return Err(BidError::NotBidder);
                }
                if amount <= item.current_highest_bid {
                    return Err(BidError::BidAmountLessThanCurrent);
                }
                let updated = AuctionItem { current_highest_bid: amount, ..item };
                match self.write_item(key, updated) {
                    Ok(()) => Ok(()),
                    Err(()) => Err(BidError::UpdateError),
                }
            },
            _ => Err(BidError::InvalidChoice),
        }
    }

    /// Ends the auction named by an `EndAuction` choice: flips it inactive
    /// and hands ownership to the final highest bidder.
    pub fn end_auction(&mut self, caller: &Identity, choice: AuctionChoice) -> (r: Result<
        (),
        AuctionError,
    >)
        requires
            old(self).wf(),
        ensures
            final(self).wf(),
            final(self).next() == old(self).next(),
            match choice {
                AuctionChoice::EndAuction(key) => match end_auction_outcome(
                    old(self).items(),
                    caller@,
                    key,
                ) {
                    Ok(nm) => r == Ok::<(), AuctionError>(()) && final(self).items() == nm,
                    Err(e) => r == Err::<(), AuctionError>(e) && final(self).items() == old(self).items(),
                },
                _ => r == Err::<(), AuctionError>(AuctionError::InvalidChoice) && final(self).items() == old(self).items(),
            },
    {
        match choice {
            AuctionChoice::EndAuction(key) => {
                let item = match self.read_item(key) {
                    None => {
                        return Err(AuctionError::NoSuchAuction);
                    },
                    Some(it) => it,
                };
                if !caller.same_as(&item.owner) {
                    return Err(AuctionError::AccessRejected);
                }
                if !item.is_active {
                    return Err(AuctionError::AuctionIsNotActive);
                }
                let new_owner = match &item.current_highest_bidder {
                    None => {
                        return Err(AuctionError::NoBids);
                    },
                    Some(b) => b.duplicate(),
                };
                let updated = AuctionItem { owner: new_owner, is_active: false, ..item };
                match self.write_item(key, updated) {
                    Ok(()) => Ok(()),
                    Err(()) => Err(AuctionError::UpdateError),
                }
            },
            _ => Err(AuctionError::InvalidChoice),
        }
    }

    /// Scans active items in ascending key order and returns the first one
    /// holding an accepted bid, if any.
    #[verifier::loop_isolation(false)]
    pub fn find_most_bidded_item(&self) -> (r: Option<AuctionItem>)
        requires
            self.wf(),
        ensures
            match r {
                Some(item) => exists|k: u64|
                    {
                        &&& #[trigger] self.items().contains_key(k)
                        &&& self.items()[k] == item@
                        &&& is_bidded(item@)
                        &&& forall|j: u64|
                            #[trigger] self.items().contains_key(j) && j < k ==> !is_bidded(
                                self.items()[j],
                            )
                    },
                None => forall|k: u64|
                    #[trigger] self.items().contains_key(k) ==> !is_bidded(self.items()[k]),
            },
    {
        let entries = self.region.entries();
        let n = entries.len();
        let mut i: usize = 0;
        while i < n
            invariant
                i <= n,
                forall|t: int|
                    0 <= t < i ==> !is_bidded(self.items()[#[trigger] entries@[t].0]),
            decreases n - i,
        {
            let key = entries[i].0;
            proof {
                assert(region_view(self.region).contains_key(key));
                assert(self.model@.contains_key(key));
                lemma_auction_codec(self.model@[key]);
                assert(entries@[i as int].1@ == spec_enc_auction(self.model@[key]));
            }
            let item = match decode_auction_item(&entries[i].1) {
                Some(it) => it,
                None => {
                    proof {
                        assert(false);
                    }
                    return None;
                },
            };
            if item.is_active && item.current_highest_bidder.is_some() {
                proof {
                    assert forall|j: u64|
                        self.items().contains_key(j) && j < key implies !is_bidded(
                        self.items()[j],
                    ) by {
                        let t = choose|t: int|
                            0 <= t < entries@.len() && entries@[t].0 == j;
                        assert(entries@[t].0 == j);
                        assert(t < i);
                    }
                }
                return Some(item);
            }
            i = i + 1;
        }
        proof {
            assert forall|k: u64| self.items().contains_key(k) implies !is_bidded(
                self.items()[k],
            ) by {
                let t = choose|t: int| 0 <= t < entries@.len() && entries@[t].0 == k;
                assert(entries@[t].0 == k);
            }
        }
        None
    }
}

// ---------------------------------------------------------------------------
// Laws of the bidding state machine.
// ---------------------------------------------------------------------------

/// One bidding call on an item: a `PlaceBid` or an `IncreaseBid`, by some
/// caller, for some amount. A rejected call leaves the item unchanged.
pub enum BidEvent {
    Place(Seq<u8>, u32),
    Increase(Seq<u8>, u32),
}

/// The item after one bidding call, accepted or not.
pub open spec fn bid_event_step(v: AuctionItemView, e: BidEvent) -> AuctionItemView {
    match e {
        BidEvent::Place(caller, amount) => match place_bid_step(v, caller, amount) {
            Ok(nv) => nv,
            Err(_) => v,
        },
        BidEvent::Increase(caller, amount) => match increase_bid_step(v, caller, amount) {
            Ok(nv) => nv,
            Err(_) => v,
        },
    }
}

/// The item after a sequence of bidding calls.
pub open spec fn apply_bid_events(v: AuctionItemView, es: Seq<BidEvent>) -> AuctionItemView
    decreases es.len(),
{
    if es.len() == 0 {
        v
    } else {
        apply_bid_events(bid_event_step(v, es[0]), es.drop_first())
    }
}

/// Under every sequence of `PlaceBid` and `IncreaseBid` calls, the highest
/// bid never decreases.
pub proof fn lemma_highest_bid_monotonic(v: AuctionItemView, es: Seq<BidEvent>)
    ensures
        apply_bid_events(v, es).current_highest_bid >= v.current_highest_bid,
    decreases es.len(),
{
    if es.len() > 0 {
        lemma_highest_bid_monotonic(bid_event_step(v, es[0]), es.drop_first());
    }
}

/// Every record an auction ledger stores fits the store's size bound and
/// satisfies the encodable field constraints.
pub proof fn lemma_stored_item_fits(led: &AuctionLedger, key: u64)
    requires
        led.wf(),
        led.items().contains_key(key),
    ensures
        fits_store(led.items()[key]),
        wf_auction_view(led.items()[key]),
{
}

/// A withdrawal never grows the stored record: the reset record fits the
/// size bound whenever the record it replaces did.
pub proof fn lemma_withdraw_fits(v: AuctionItemView, caller: Seq<u8>)
    requires
        withdraw_bid_step(v, caller) is Ok,
        fits_store(v),
    ensures
        match withdraw_bid_step(v, caller) {
            Ok(w) => fits_store(w),
            Err(_) => true,
        },
{
    vstd::bytes::lemma_auto_spec_u64_to_from_le_bytes();
    vstd::bytes::lemma_auto_spec_u32_to_from_le_bytes();
    match withdraw_bid_step(v, caller) {
        Ok(w) => {
            assert(vstd::bytes::spec_u32_to_le_bytes(w.current_highest_bid).len() == 4);
            assert(vstd::bytes::spec_u32_to_le_bytes(v.current_highest_bid).len() == 4);
            assert(spec_enc_opt_bytes(w.current_highest_bidder).len() == 1);
            match v.current_highest_bidder {
                Some(bb) => {
                    assert(spec_enc_opt_bytes(v.current_highest_bidder).len() == 9 + bb.len());
                },
                None => {},
            }
            assert(spec_enc_auction(w).len() <= spec_enc_auction(v).len());
        },
        Err(_) => {},
    }
}

/// Raising the bid rewrites only the fixed-width amount, so the record
/// still fits the size bound.
pub proof fn lemma_increase_fits(v: AuctionItemView, caller: Seq<u8>, amount: u32)
    requires
        increase_bid_step(v, caller, amount) is Ok,
        fits_store(v),
    ensures
        match increase_bid_step(v, caller, amount) {
            Ok(w) => fits_store(w),
            Err(_) => true,
        },
{
    vstd::bytes::lemma_auto_spec_u32_to_from_le_bytes();
    match increase_bid_step(v, caller, amount) {
        Ok(w) => {
            assert(vstd::bytes::spec_u32_to_le_bytes(w.current_highest_bid).len() == 4);
            assert(vstd::bytes::spec_u32_to_le_bytes(v.current_highest_bid).len() == 4);
            assert(spec_enc_auction(w).len() == spec_enc_auction(v).len());
        },
        Err(_) => {},
    }
}

/// A withdrawal by the current highest bidder of a stored, active item
/// succeeds at the ledger level, and the record read back afterwards has no
/// bidder and the baseline bid of zero, with every other field and every
/// other record unchanged.
pub proof fn lemma_withdraw_succeeds(m: Map<u64, AuctionItemView>, caller: Seq<u8>, key: u64)
    requires
        m.contains_key(key),
        fits_store(m[key]),
        m[key].is_active,
        m[key].current_highest_bidder == Some(caller),
    ensures
        match withdraw_bid_outcome(m, caller, key) {
            Ok(nm) => {
                &&& nm[key].current_highest_bidder is None
                &&& nm[key].current_highest_bid == 0
                &&& nm[key].is_active == m[key].is_active
                &&& nm[key].title == m[key].title
                &&& nm[key].description == m[key].description
                &&& nm[key].owner == m[key].owner
                &&& nm == m.insert(key, nm[key])
            },
            Err(_) => false,
        },
{
    lemma_withdraw_fits(m[key], caller);
}

/// A successful withdrawal leaves the item with no bidder and a zero bid,
/// and any further withdrawal, by anyone, is rejected as `NotBidder`.
pub proof fn lemma_withdraw_resets(v: AuctionItemView, caller: Seq<u8>)
    requires
        withdraw_bid_step(v, caller) is Ok,
    ensures
        match withdraw_bid_step(v, caller) {
            Ok(w) => {
                &&& w.current_highest_bidder is None
                &&& w.current_highest_bid == 0
                &&& forall|c: Seq<u8>|
                    #[trigger] withdraw_bid_step(w, c) == Err::<AuctionItemView, BidError>(
                        BidError::NotBidder,
                    )
            },
            Err(_) => false,
        },
{
}

/// Ending an auction is not repeatable: after a successful close, a second
/// close by the new owner fails with `AuctionIsNotActive`, and by anyone
/// else with `AccessRejected`.
pub proof fn lemma_end_auction_not_repeatable(v: AuctionItemView, caller: Seq<u8>)
    requires
        end_auction_step(v, caller) is Ok,
    ensures
        match end_auction_step(v, caller) {
            Ok(w) => forall|c: Seq<u8>|
                #[trigger] end_auction_step(w, c) == Err::<AuctionItemView, AuctionError>(
                    if c == w.owner {
                        AuctionError::AuctionIsNotActive
                    } else {
                        AuctionError::AccessRejected
                    },
                ),
            Err(_) => false,
        },
{
}

/// Ending an auction that never received a bid fails with `NoBids` and, at
/// the ledger level, leaves the record unchanged and still active.
pub proof fn lemma_end_auction_no_bids(m: Map<u64, AuctionItemView>, caller: Seq<u8>, key: u64)
    requires
        m.contains_key(key),
        m[key].is_active,
        caller == m[key].owner,
        m[key].current_highest_bidder is None,
    ensures
        end_auction_outcome(m, caller, key) == Err::<Map<u64, AuctionItemView>, AuctionError>(
            AuctionError::NoBids,
        ),
{
}

} // verus!
