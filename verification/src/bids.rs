//! The bid ledger: payment-backed bid records in one storage partition. The
//! payment collaborator (balance check and transfer) lives outside; this
//! module decides from its reported outcomes and records the bid.
use vstd::prelude::*;
use vstd::utf8::encode_utf8;

use crate::codec::enc_bool;
use crate::codec::enc_bytes;
use crate::codec::enc_str;
use crate::codec::enc_u32;
use crate::codec::enc_u64;
use crate::codec::lemma_sp_bool;
use crate::codec::lemma_sp_bytes;
use crate::codec::lemma_sp_str;
use crate::codec::lemma_sp_u32;
use crate::codec::lemma_sp_u64;
use crate::codec::p_bool;
use crate::codec::p_bytes;
use crate::codec::p_str;
use crate::codec::p_u32;
use crate::codec::p_u64;
use crate::codec::sp_bool;
use crate::codec::sp_bytes;
use crate::codec::sp_str;
use crate::codec::sp_u32;
use crate::codec::sp_u64;
use crate::codec::spec_enc_bool;
use crate::codec::spec_enc_bytes;
use crate::codec::spec_enc_str;
use crate::codec::spec_enc_u32;
use crate::codec::spec_enc_u64;
use crate::identity::Identity;
use crate::store::region_view;
use crate::store::Region;
use crate::types::BidError;
use crate::MAX_VALUE_SIZE;

verus! {

/// One submitted, payment-backed bid, tied to an auction item by key.
pub struct Bid {
    pub description: String,
    pub auction: u64,
    pub owner: Identity,
    pub currency: String,
    pub amount: u32,
    pub is_active: bool,
}

/// The mathematical view of a bid.
pub struct BidView {
    pub description: Seq<char>,
    pub auction: u64,
    pub owner: Seq<u8>,
    pub currency: Seq<char>,
    pub amount: u32,
    pub is_active: bool,
}

impl View for Bid {
    type V = BidView;

    open spec fn view(&self) -> BidView {
        BidView {
            description: self.description@,
            auction: self.auction,
            owner: self.owner@,
            currency: self.currency@,
            amount: self.amount,
            is_active: self.is_active,
        }
    }
}

/// Field constraints under which a bid is encodable losslessly.
pub open spec fn wf_bid_view(v: BidView) -> bool {
    &&& encode_utf8(v.description).len() <= u64::MAX
    &&& encode_utf8(v.currency).len() <= u64::MAX
    &&& v.owner.len() <= u64::MAX
}

/// The stored encoding of a bid.
pub open spec fn spec_enc_bid(v: BidView) -> Seq<u8> {
    spec_enc_str(v.description) + spec_enc_u64(v.auction) + spec_enc_bytes(v.owner) + spec_enc_str(
        v.currency,
    ) + spec_enc_u32(v.amount) + spec_enc_bool(v.is_active)
}

/// Parses a stored bid; fails on anything but an exact encoding.
pub open spec fn sp_bid(b: Seq<u8>) -> Option<BidView> {
    match sp_str(b, 0) {
        None => None,
        Some((description, i1)) => match sp_u64(b, i1) {
            None => None,
            Some((auction, i2)) => match sp_bytes(b, i2) {
                None => None,
                Some((owner, i3)) => match sp_str(b, i3) {
                    None => None,
                    Some((currency, i4)) => match sp_u32(b, i4) {
                        None => None,
                        Some((amount, i5)) => match sp_bool(b, i5) {
                            None => None,
                            Some((is_active, i6)) => if i6 == b.len() {
                                Some(
                                    BidView {
                                        description,
                                        auction,
                                        owner,
                                        currency,
                                        amount,
                                        is_active,
                                    },
                                )
                            } else {
                                None
                            },
                        },
                    },
                },
            },
        },
    }
}

/// The parser inverts the encoder for bids.
pub proof fn lemma_bid_codec(v: BidView)
    requires
        wf_bid_view(v),
    ensures
        sp_bid(spec_enc_bid(v)) == Some(v),
{
    vstd::bytes::lemma_auto_spec_u64_to_from_le_bytes();
    vstd::bytes::lemma_auto_spec_u32_to_from_le_bytes();
    assert(vstd::bytes::spec_u32_to_le_bytes(v.amount).len() == 4);
    let b = spec_enc_bid(v);
    let e1 = spec_enc_str(v.description);
    let e2 = spec_enc_u64(v.auction);
    let e3 = spec_enc_bytes(v.owner);
    let e4 = spec_enc_str(v.currency);
    let e5 = spec_enc_u32(v.amount);
    let e6 = spec_enc_bool(v.is_active);
    let o1 = e1.len() as int;
    let o2 = o1 + e2.len();
    let o3 = o2 + e3.len();
    let o4 = o3 + e4.len();
    let o5 = o4 + e5.len();
    let o6 = o5 + e6.len();
    assert(b.len() == o6);
    assert forall|t: int| 0 <= t < e1.len() implies b[0 + t] == #[trigger] e1[t] by {}
    assert(b.subrange(0, o1) =~= e1);
    lemma_sp_str(b, 0, v.description);
    assert forall|t: int| 0 <= t < e2.len() implies b[o1 + t] == #[trigger] e2[t] by {}
    assert(b.subrange(o1, o2) =~= e2);
    lemma_sp_u64(b, o1, v.auction);
    assert forall|t: int| 0 <= t < e3.len() implies b[o2 + t] == #[trigger] e3[t] by {}
    assert(b.subrange(o2, o3) =~= e3);
    lemma_sp_bytes(b, o2, v.owner);
    assert forall|t: int| 0 <= t < e4.len() implies b[o3 + t] == #[trigger] e4[t] by {}
    assert(b.subrange(o3, o4) =~= e4);
    lemma_sp_str(b, o3, v.currency);
    assert forall|t: int| 0 <= t < e5.len() implies b[o4 + t] == #[trigger] e5[t] by {}
    assert(b.subrange(o4, o5) =~= e5);
    lemma_sp_u32(b, o4, v.amount);
    assert forall|t: int| 0 <= t < e6.len() implies b[o5 + t] == #[trigger] e6[t] by {}
    assert(b.subrange(o5, o6) =~= e6);
    lemma_sp_bool(b, o5, v.is_active);
}

/// Encodes a bid for storage.
pub fn encode_bid(bid: &Bid) -> (r: Vec<u8>)
    ensures
        r@ == spec_enc_bid(bid@),
        wf_bid_view(bid@),
{
    // Reading each field's byte length here puts the bound the 64-bit
    // length prefixes need into scope for the proof.
    let _descr_len = bid.description.as_str().as_bytes().len();
    let _curr_len = bid.currency.as_str().as_bytes().len();
    let _owner_len = bid.owner.bytes.len();
    let mut out: Vec<u8> = Vec::new();
    enc_str(&mut out, bid.description.as_str());
    enc_u64(&mut out, bid.auction);
    enc_bytes(&mut out, bid.owner.bytes.as_slice());
    enc_str(&mut out, bid.currency.as_str());
    enc_u32(&mut out, bid.amount);
    enc_bool(&mut out, bid.is_active);
    proof {
        assert(out@ =~= spec_enc_bid(bid@));
    }
    out
}

/// Decodes a stored bid; `None` on anything but an exact encoding.
pub fn decode_bid(b: &Vec<u8>) -> (r: Option<Bid>)
    ensures
        match r {
            Some(bid) => sp_bid(b@) == Some(bid@) && wf_bid_view(bid@),
            None => sp_bid(b@) is None,
        },
{
    let (description, i1) = match p_str(b, 0) {
        None => {
            return None;
        },
        Some(p) => p,
    };
    let (auction, i2) = match p_u64(b, i1) {
        None => {
            return None;
        },
        Some(p) => p,
    };
    let (owner, i3) = match p_bytes(b, i2) {
        None => {
            return None;
        },
        Some(p) => p,
    };
    let (currency, i4) = match p_str(b, i3) {
        None => {
            return None;
        },
        Some(p) => p,
    };
    let (amount, i5) = match p_u32(b, i4) {
        None => {
            return None;
        },
        Some(p) => p,
    };
    let (is_active, i6) = match p_bool(b, i5) {
        None => {
            return None;
        },
        Some(p) => p,
    };
    if i6 != b.len() {
        return None;
    }
    Some(
        Bid {
            description,
            auction,
            owner: Identity { bytes: owner },
            currency,
            amount,
            is_active,
        },
    )
}

/// Data for creating a payment-backed bid: the record's fields plus the
/// payment amount handed to the external ledger.
pub struct CreateBid {
    pub description: String,
    pub auction: u64,
    pub currency: String,
    pub amount: u32,
    pub is_active: bool,
    pub bid_amount: u64,
}

/// The mathematical view of the creation data.
pub struct CreateBidView {
    pub description: Seq<char>,
    pub auction: u64,
    pub currency: Seq<char>,
    pub amount: u32,
    pub is_active: bool,
    pub bid_amount: u64,
}

impl View for CreateBid {
    type V = CreateBidView;

    open spec fn view(&self) -> CreateBidView {
        CreateBidView {
            description: self.description@,
            auction: self.auction,
            currency: self.currency@,
            amount: self.amount,
            is_active: self.is_active,
            bid_amount: self.bid_amount,
        }
    }
}

/// The record a creation request stores, owned by the caller.
pub open spec fn new_bid_view(c: CreateBidView, owner: Seq<u8>) -> BidView {
    BidView {
        description: c.description,
        auction: c.auction,
        owner,
        currency: c.currency,
        amount: c.amount,
        is_active: c.is_active,
    }
}

/// Whether a bid record still fits in one store slot.
pub open spec fn fits_bid_store(v: BidView) -> bool {
    spec_enc_bid(v).len() <= MAX_VALUE_SIZE as nat
}

/// Decides the funds precondition from the balance the external ledger
/// reported: the payment fails exactly when the balance is short.
pub fn check_funds(balance: u64, bid_amount: u64) -> (r: Result<(), BidError>)
    ensures
        r == if balance < bid_amount {
            Err::<(), BidError>(BidError::NotEnoughFunds)
        } else {
            Ok::<(), BidError>(())
        },
{
    if balance < bid_amount {
        Err(BidError::NotEnoughFunds)
    } else {
        Ok(())
    }
}

/// The bid ledger: one storage partition of bids, keyed from 1 upward by a
/// persisted counter.
pub struct BidLedger {
    region: Region,
    next_key: u64,
    model: Ghost<Map<u64, BidView>>,
}

impl BidLedger {
    /// The bids this ledger holds, as a map from key to bid view.
    pub closed spec fn bids(&self) -> Map<u64, BidView> {
        self.model@
    }

    /// The key the next recorded bid will receive.
    pub closed spec fn next(&self) -> u64 {
        self.next_key
    }

    /// The ledger's invariant: the model mirrors the stored bytes, every
    /// stored record is a well-formed encoding within the size bound, and
    /// every key is below the creation counter.
    pub closed spec fn wf(&self) -> bool {
        &&& self.model@.dom() == region_view(self.region).dom()
        &&& self.model@.dom().finite()
        &&& forall|k: u64|
            #[trigger] self.model@.contains_key(k) ==> wf_bid_view(self.model@[k]) && region_view(
                self.region,
            )[k] == spec_enc_bid(self.model@[k]) && fits_bid_store(self.model@[k])
        &&& 1 <= self.next_key
        &&& forall|k: u64| #[trigger] self.model@.contains_key(k) ==> 1 <= k < self.next_key
    }

    /// A fresh, empty ledger over its own storage partition.
    pub fn new() -> (r: BidLedger)
        ensures
            r.wf(),
            r.bids() == Map::<u64, BidView>::empty(),
            r.next() == 1,
    {
        let r = BidLedger { region: Region::new(), next_key: 1, model: Ghost(Map::empty()) };
        proof {
            assert(r.model@.dom() =~= region_view(r.region).dom());
        }
        r
    }

    /// Reads and decodes the bid stored under `key`.
    pub fn get_bid(&self, key: u64) -> (r: Option<Bid>)
        requires
            self.wf(),
        ensures
            match r {
                Some(bid) => self.bids().contains_key(key) && bid@ == self.bids()[key]
                    && fits_bid_store(bid@),
                None => !self.bids().contains_key(key),
            },
    {
        match self.region.get(key) {
            None => None,
            Some(bytes) => {
                proof {
                    assert(region_view(self.region).contains_key(key));
                    assert(self.model@.contains_key(key));
                    lemma_bid_codec(self.model@[key]);
                }
                match decode_bid(&bytes) {
                    Some(bid) => Some(bid),
                    None => {
                        proof {
                            assert(false);
                        }
                        None
                    },
                }
            },
        }
    }

    /// A key never used by this partition: the persisted counter's current
    /// value. Each call hands out a fresh key and advances the counter.
    pub fn generate_unique_bid_id(&mut self) -> (id: u64)
        requires
            old(self).wf(),
            old(self).next() < u64::MAX,
        ensures
            final(self).wf(),
            id == old(self).next(),
            !final(self).bids().contains_key(id),
            final(self).bids() == old(self).bids(),
            final(self).next() == id + 1,
    {
        let id = self.next_key;
        self.next_key = id + 1;
        id
    }

    /// Records a payment-backed bid once the external transfer's outcome is
    /// known: rejected with `TransferError` when the transfer failed, and
    /// with `UpdateError` exactly when the encoded record would exceed the
    /// size bound or the key space is exhausted.
    pub fn record_bid(&mut self, caller: &Identity, details: CreateBid, transfer_ok: bool) -> (r:
        Result<u64, BidError>)
        requires
            old(self).wf(),
        ensures
            final(self).wf(),
            match r {
                Ok(key) => {
                    &&& transfer_ok
                    &&& old(self).next() < u64::MAX
                    &&& fits_bid_store(new_bid_view(details@, caller@))
                    &&& key == old(self).next()
                    &&& !old(self).bids().contains_key(key)
                    &&& final(self).bids() == old(self).bids().insert(
                        key,
                        new_bid_view(details@, caller@),
                    )
                    &&& final(self).next() == key + 1
                },
                Err(BidError::TransferError) => {
                    &&& !transfer_ok
                    &&& final(self).bids() == old(self).bids()
                    &&& final(self).next() == old(self).next()
                },
                Err(BidError::UpdateError) => {
                    &&& transfer_ok
                    &&& final(self).bids() == old(self).bids()
                    &&& final(self).next() == old(self).next()
                    &&& (old(self).next() == u64::MAX || !fits_bid_store(
                        new_bid_view(details@, caller@),
                    ))
                },
                Err(_) => false,
            },
    {
        if !transfer_ok {
            return Err(BidError::TransferError);
        }
        let record = Bid {
            description: details.description,
            auction: details.auction,
            owner: caller.duplicate(),
            currency: details.currency,
            amount: details.amount,
            is_active: details.is_active,
        };
        let enc = encode_bid(&record);
        if enc.len() > MAX_VALUE_SIZE as usize {
            return Err(BidError::UpdateError);
        }
        if self.next_key == u64::MAX {
            return Err(BidError::UpdateError);
        }
        let key = self.generate_unique_bid_id();
        let _prev = self.region.insert(key, enc);
        proof {
            self.model@ = self.model@.insert(key, record@);
            assert(self.model@.dom() =~= region_view(self.region).dom());
        }
        Ok(key)
    }
}

} // verus!
