//! The item ledger: richer auction records that retain their full bid
//! history alongside start and end timestamps, in their own storage
//! partition.
use vstd::prelude::*;
use vstd::utf8::encode_utf8;

use crate::bids::decode_bid;
use crate::bids::encode_bid;
use crate::bids::lemma_bid_codec;
use crate::bids::sp_bid;
use crate::bids::spec_enc_bid;
use crate::bids::wf_bid_view;
use crate::bids::Bid;
use crate::bids::BidView;
use crate::codec::bytes_list_view;
use crate::codec::enc_bool;
use crate::codec::enc_bytes;
use crate::codec::enc_str;
use crate::codec::enc_u32;
use crate::codec::enc_u64;
use crate::codec::lemma_enc_bytes_list_push;
use crate::codec::lemma_sp_bool;
use crate::codec::lemma_sp_bytes;
use crate::codec::lemma_sp_bytes_list;
use crate::codec::lemma_sp_str;
use crate::codec::lemma_sp_u32;
use crate::codec::lemma_sp_u64;
use crate::codec::p_bool;
use crate::codec::p_bytes;
use crate::codec::p_bytes_list;
use crate::codec::p_str;
use crate::codec::p_u32;
use crate::codec::p_u64;
use crate::codec::sp_bool;
use crate::codec::sp_bytes;
use crate::codec::sp_bytes_list;
use crate::codec::sp_str;
use crate::codec::sp_u32;
use crate::codec::sp_u64;
use crate::codec::spec_enc_bool;
use crate::codec::spec_enc_bytes;
use crate::codec::spec_enc_bytes_list;
use crate::codec::spec_enc_str;
use crate::codec::spec_enc_u32;
use crate::codec::spec_enc_u64;
use crate::identity::Identity;
use crate::store::region_view;
use crate::store::Region;
use crate::types::AuctionError;
use crate::MAX_VALUE_SIZE;

verus! {

/// One auction record that keeps its full bid history; timestamps are
/// carried as opaque text.
pub struct Item {
    pub title: String,
    pub description: String,
    pub owner: Identity,
    pub new_owner: Identity,
    pub currency: String,
    pub amount: u32,
    pub is_active: bool,
    pub start_time: String,
    pub end_time: String,
    pub bid: Vec<Bid>,
}

/// The mathematical view of an item.
pub struct ItemView {
    pub title: Seq<char>,
    pub description: Seq<char>,
    pub owner: Seq<u8>,
    pub new_owner: Seq<u8>,
    pub currency: Seq<char>,
    pub amount: u32,
    pub is_active: bool,
    pub start_time: Seq<char>,
    pub end_time: Seq<char>,
    pub bid: Seq<BidView>,
}

/// Maps a list of bids to the sequence of their views.
pub open spec fn bids_view(l: Seq<Bid>) -> Seq<BidView> {
    Seq::new(l.len(), |k: int| l[k]@)
}

impl View for Item {
    type V = ItemView;

    open spec fn view(&self) -> ItemView {
        ItemView {
            title: self.title@,
            description: self.description@,
            owner: self.owner@,
            new_owner: self.new_owner@,
            currency: self.currency@,
            amount: self.amount,
            is_active: self.is_active,
            start_time: self.start_time@,
            end_time: self.end_time@,
            bid: bids_view(self.bid@),
        }
    }
}

/// The encodings of a list of bids, each one a byte string of its own.
pub open spec fn bid_encs(l: Seq<BidView>) -> Seq<Seq<u8>> {
    Seq::new(l.len(), |k: int| spec_enc_bid(l[k]))
}

/// Field constraints under which an item is encodable losslessly.
pub open spec fn wf_item_view(v: ItemView) -> bool {
    &&& encode_utf8(v.title).len() <= u64::MAX
    &&& encode_utf8(v.description).len() <= u64::MAX
    &&& encode_utf8(v.currency).len() <= u64::MAX
    &&& encode_utf8(v.start_time).len() <= u64::MAX
    &&& encode_utf8(v.end_time).len() <= u64::MAX
    &&& v.owner.len() <= u64::MAX
    &&& v.new_owner.len() <= u64::MAX
    &&& v.bid.len() <= u64::MAX
    &&& forall|k: int|
        0 <= k < v.bid.len() ==> wf_bid_view(#[trigger] v.bid[k]) && spec_enc_bid(v.bid[k]).len()
            <= u64::MAX
}

/// The stored encoding of an item.
pub open spec fn spec_enc_item(v: ItemView) -> Seq<u8> {
    spec_enc_str(v.title) + spec_enc_str(v.description) + spec_enc_bytes(v.owner) + spec_enc_bytes(
        v.new_owner,
    ) + spec_enc_str(v.currency) + spec_enc_u32(v.amount) + spec_enc_bool(v.is_active)
        + spec_enc_str(v.start_time) + spec_enc_str(v.end_time) + spec_enc_u64(v.bid.len() as u64)
        + spec_enc_bytes_list(bid_encs(v.bid))
}

/// Decodes each byte string of a parsed list as one bid.
pub open spec fn sp_bid_list(datas: Seq<Seq<u8>>) -> Option<Seq<BidView>>
    decreases datas.len(),
{
    if datas.len() == 0 {
        Some(Seq::empty())
    } else {
        match sp_bid(datas[0]) {
            None => None,
            Some(bv) => match sp_bid_list(datas.drop_first()) {
                None => None,
                Some(rest) => Some(seq![bv] + rest),
            },
        }
    }
}

/// Parses a stored item; fails on anything but an exact encoding.
pub open spec fn sp_item(b: Seq<u8>) -> Option<ItemView> {
    match sp_str(b, 0) {
        None => None,
        Some((title, i1)) => match sp_str(b, i1) {
            None => None,
            Some((description, i2)) => match sp_bytes(b, i2) {
                None => None,
                Some((owner, i3)) => match sp_bytes(b, i3) {
                    None => None,
                    Some((new_owner, i4)) => match sp_str(b, i4) {
                        None => None,
                        Some((currency, i5)) => match sp_u32(b, i5) {
                            None => None,
                            Some((amount, i6)) => match sp_bool(b, i6) {
                                None => None,
                                Some((is_active, i7)) => match sp_str(b, i7) {
                                    None => None,
                                    Some((start_time, i8)) => match sp_str(b, i8) {
                                        None => None,
                                        Some((end_time, i9)) => match sp_u64(b, i9) {
                                            None => None,
                                            Some((count, i10)) => match sp_bytes_list(
                                                b,
                                                i10,
                                                count as nat,
                                            ) {
                                                None => None,
                                                Some((datas, i11)) => match sp_bid_list(datas) {
                                                    None => None,
                                                    Some(bid) => if i11 == b.len() {
                                                        Some(
                                                            ItemView {
                                                                title,
                                                                description,
                                                                owner,
                                                                new_owner,
                                                                currency,
                                                                amount,
                                                                is_active,
                                                                start_time,
                                                                end_time,
                                                                bid,
                                                            },
                                                        )
                                                    } else {
                                                        None
                                                    },
                                                },
                                            },
                                        },
                                    },
                                },
                            },
                        },
                    },
                },
            },
        },
    }
}

/// Decoding the encodings of a list of well-formed bids yields the list.
pub proof fn lemma_sp_bid_list(l: Seq<BidView>)
    requires
        forall|k: int| 0 <= k < l.len() ==> wf_bid_view(#[trigger] l[k]),
    ensures
        sp_bid_list(bid_encs(l)) == Some(l),
    decreases l.len(),
{
    if l.len() == 0 {
        assert(bid_encs(l) =~= Seq::<Seq<u8>>::empty());
        assert(Seq::<BidView>::empty() =~= l);
    } else {
        lemma_bid_codec(l[0]);
        assert(bid_encs(l)[0] == spec_enc_bid(l[0]));
        assert(bid_encs(l).drop_first() =~= bid_encs(l.drop_first()));
        lemma_sp_bid_list(l.drop_first());
        assert(seq![l[0]] + l.drop_first() =~= l);
    }
}

/// The parser inverts the encoder for items.
#[verifier::rlimit(100)]
#[verifier::spinoff_prover]
pub proof fn lemma_item_codec(v: ItemView)
    requires
        wf_item_view(v),
    ensures
        sp_item(spec_enc_item(v)) == Some(v),
{
    vstd::bytes::lemma_auto_spec_u64_to_from_le_bytes();
    vstd::bytes::lemma_auto_spec_u32_to_from_le_bytes();
    assert(vstd::bytes::spec_u32_to_le_bytes(v.amount).len() == 4);
    let b = spec_enc_item(v);
    let e1 = spec_enc_str(v.title);
    let e2 = spec_enc_str(v.description);
    let e3 = spec_enc_bytes(v.owner);
    let e4 = spec_enc_bytes(v.new_owner);
    let e5 = spec_enc_str(v.currency);
    let e6 = spec_enc_u32(v.amount);
    let e7 = spec_enc_bool(v.is_active);
    let e8 = spec_enc_str(v.start_time);
    let e9 = spec_enc_str(v.end_time);
    let e10 = spec_enc_u64(v.bid.len() as u64);
    let e11 = spec_enc_bytes_list(bid_encs(v.bid));
    let o1 = e1.len() as int;
    let o2 = o1 + e2.len();
    let o3 = o2 + e3.len();
    let o4 = o3 + e4.len();
    let o5 = o4 + e5.len();
    let o6 = o5 + e6.len();
    let o7 = o6 + e7.len();
    let o8 = o7 + e8.len();
    let o9 = o8 + e9.len();
    let o10 = o9 + e10.len();
    let o11 = o10 + e11.len();
    assert(b.len() == o11);
    assert forall|t: int| 0 <= t < e1.len() implies b[0 + t] == #[trigger] e1[t] by {}
    assert(b.subrange(0, o1) =~= e1);
    lemma_sp_str(b, 0, v.title);
    assert forall|t: int| 0 <= t < e2.len() implies b[o1 + t] == #[trigger] e2[t] by {}
    assert(b.subrange(o1, o2) =~= e2);
    lemma_sp_str(b, o1, v.description);
    assert forall|t: int| 0 <= t < e3.len() implies b[o2 + t] == #[trigger] e3[t] by {}
    assert(b.subrange(o2, o3) =~= e3);
    lemma_sp_bytes(b, o2, v.owner);
    assert forall|t: int| 0 <= t < e4.len() implies b[o3 + t] == #[trigger] e4[t] by {}
    assert(b.subrange(o3, o4) =~= e4);
    lemma_sp_bytes(b, o3, v.new_owner);
    assert forall|t: int| 0 <= t < e5.len() implies b[o4 + t] == #[trigger] e5[t] by {}
    assert(b.subrange(o4, o5) =~= e5);
    lemma_sp_str(b, o4, v.currency);
    assert forall|t: int| 0 <= t < e6.len() implies b[o5 + t] == #[trigger] e6[t] by {}
    assert(b.subrange(o5, o6) =~= e6);
    lemma_sp_u32(b, o5, v.amount);
    assert forall|t: int| 0 <= t < e7.len() implies b[o6 + t] == #[trigger] e7[t] by {}
    assert(b.subrange(o6, o7) =~= e7);
    lemma_sp_bool(b, o6, v.is_active);
    assert forall|t: int| 0 <= t < e8.len() implies b[o7 + t] == #[trigger] e8[t] by {}
    assert(b.subrange(o7, o8) =~= e8);
    lemma_sp_str(b, o7, v.start_time);
    assert forall|t: int| 0 <= t < e9.len() implies b[o8 + t] == #[trigger] e9[t] by {}
    assert(b.subrange(o8, o9) =~= e9);
    lemma_sp_str(b, o8, v.end_time);
    assert forall|t: int| 0 <= t < e10.len() implies b[o9 + t] == #[trigger] e10[t] by {}
    assert(b.subrange(o9, o10) =~= e10);
    lemma_sp_u64(b, o9, v.bid.len() as u64);
    assert forall|t: int| 0 <= t < e11.len() implies b[o10 + t] == #[trigger] e11[t] by {}
    assert(b.subrange(o10, o11) =~= e11);
    assert forall|k: int|
        0 <= k < bid_encs(v.bid).len() implies #[trigger] bid_encs(v.bid)[k].len()
        <= u64::MAX by {}
    lemma_sp_bytes_list(b, o10, bid_encs(v.bid));
    lemma_sp_bid_list(v.bid);
}

/// Encodes an item for storage.
pub fn encode_item(item: &Item) -> (r: Vec<u8>)
    ensures
        r@ == spec_enc_item(item@),
        wf_item_view(item@),
{
    // Reading each field's byte length here puts the bound the 64-bit
    // length prefixes need into scope for the proof.
    let _title_len = item.title.as_str().as_bytes().len();
    let _descr_len = item.description.as_str().as_bytes().len();
    let _curr_len = item.currency.as_str().as_bytes().len();
    let _start_len = item.start_time.as_str().as_bytes().len();
    let _end_len = item.end_time.as_str().as_bytes().len();
    let _owner_len = item.owner.bytes.len();
    let _new_owner_len = item.new_owner.bytes.len();
    let mut out: Vec<u8> = Vec::new();
    enc_str(&mut out, item.title.as_str());
    enc_str(&mut out, item.description.as_str());
    enc_bytes(&mut out, item.owner.bytes.as_slice());
    enc_bytes(&mut out, item.new_owner.bytes.as_slice());
    enc_str(&mut out, item.currency.as_str());
    enc_u32(&mut out, item.amount);
    enc_bool(&mut out, item.is_active);
    enc_str(&mut out, item.start_time.as_str());
    enc_str(&mut out, item.end_time.as_str());
    let count = item.bid.len();
    enc_u64(&mut out, count as u64);
    let ghost prefix = out@;
    let mut i: usize = 0;
    while i < count
        invariant
            i <= count,
            count == item.bid@.len(),
            out@ == prefix + spec_enc_bytes_list(bid_encs(bids_view(item.bid@.subrange(0, i as int)))),
            forall|k: int|
                0 <= k < i ==> wf_bid_view(#[trigger] item.bid@[k]@) && spec_enc_bid(
                    item.bid@[k]@,
                ).len() <= u64::MAX,
        decreases count - i,
    {
        let ghost sofar = bid_encs(bids_view(item.bid@.subrange(0, i as int)));
        let piece = encode_bid(&item.bid[i]);
        let plen = piece.len();
        assert(plen <= u64::MAX);
        enc_bytes(&mut out, piece.as_slice());
        proof {
            lemma_enc_bytes_list_push(sofar, piece@);
            assert(bid_encs(bids_view(item.bid@.subrange(0, i + 1))) =~= sofar.push(piece@));
        }
        i = i + 1;
    }
    proof {
        assert(item.bid@.subrange(0, count as int) =~= item.bid@);
        assert(out@ =~= spec_enc_item(item@));
    }
    out
}

/// Decodes a stored item; `None` on anything but an exact encoding.
#[verifier::loop_isolation(false)]
pub fn decode_item(b: &Vec<u8>) -> (r: Option<Item>)
    ensures
        match r {
            Some(item) => sp_item(b@) == Some(item@),
            None => sp_item(b@) is None,
        },
{
    let (title, i1) = match p_str(b, 0) {
        None => {
            return None;
        },
        Some(p) => p,
    };
    let (description, i2) = match p_str(b, i1) {
        None => {
            return None;
        },
        Some(p) => p,
    };
    let (owner, i3) = match p_bytes(b, i2) {
        None => {
            return None;
        },
        Some(p) => p,
    };
    let (new_owner, i4) = match p_bytes(b, i3) {
        None => {
            return None;
        },
        Some(p) => p,
    };
    let (currency, i5) = match p_str(b, i4) {
        None => {
            return None;
        },
        Some(p) => p,
    };
    let (amount, i6) = match p_u32(b, i5) {
        None => {
            return None;
        },
        Some(p) => p,
    };
    let (is_active, i7) = match p_bool(b, i6) {
        None => {
            return None;
        },
        Some(p) => p,
    };
    let (start_time, i8) = match p_str(b, i7) {
        None => {
            return None;
        },
        Some(p) => p,
    };
    let (end_time, i9) = match p_str(b, i8) {
        None => {
            return None;
        },
        Some(p) => p,
    };
    let (count, i10) = match p_u64(b, i9) {
        None => {
            return None;
        },
        Some(p) => p,
    };
    let (mut raw, i11) = match p_bytes_list(b, i10, count) {
        None => {
            return None;
        },
        Some(p) => p,
    };
    if i11 != b.len() {
        return None;
    }
    let ghost datas = bytes_list_view(raw@);
    let mut bid: Vec<Bid> = Vec::new();
    while raw.len() > 0
        invariant
            match sp_bid_list(bytes_list_view(raw@)) {
                Some(rest) => sp_bid_list(datas) == Some(bids_view(bid@) + rest),
                None => sp_bid_list(datas) is None,
            },
        decreases raw@.len(),
    {
        let ghost before_bids = bids_view(bid@);
        let ghost before_raw = bytes_list_view(raw@);
        let piece = raw.remove(0);
        let one = match decode_bid(&piece) {
            None => {
                proof {
                    assert(piece@ == before_raw[0]);
                    assert(sp_bid_list(before_raw) is None);
                }
                return None;
            },
            Some(bv) => bv,
        };
        bid.push(one);
        proof {
            assert(bids_view(bid@) =~= before_bids.push(one@));
            assert(bytes_list_view(raw@) =~= before_raw.drop_first());
            match sp_bid_list(before_raw.drop_first()) {
                Some(rest) => {
                    assert(before_bids + (seq![one@] + rest) =~= bids_view(bid@) + rest);
                },
                None => {},
            }
        }
    }
    proof {
        assert(bytes_list_view(raw@) =~= Seq::<Seq<u8>>::empty());
        assert(bids_view(bid@) + Seq::<BidView>::empty() =~= bids_view(bid@));
    }
    Some(
        Item {
            title,
            description,
            owner: Identity { bytes: owner },
            new_owner: Identity { bytes: new_owner },
            currency,
            amount,
            is_active,
            start_time,
            end_time,
            bid,
        },
    )
}


/// Data for creating a new item.
pub struct CreateItem {
    pub title: String,
    pub description: String,
    pub is_active: bool,
    pub start_time: String,
    pub end_time: String,
    pub currency: String,
    pub amount: u32,
}

/// The mathematical view of the creation data.
pub struct CreateItemView {
    pub title: Seq<char>,
    pub description: Seq<char>,
    pub is_active: bool,
    pub start_time: Seq<char>,
    pub end_time: Seq<char>,
    pub currency: Seq<char>,
    pub amount: u32,
}

impl View for CreateItem {
    type V = CreateItemView;

    open spec fn view(&self) -> CreateItemView {
        CreateItemView {
            title: self.title@,
            description: self.description@,
            is_active: self.is_active,
            start_time: self.start_time@,
            end_time: self.end_time@,
            currency: self.currency@,
            amount: self.amount,
        }
    }
}

/// The record a creation request stores: no bid history yet, owned by the
/// creator, with the prospective new owner set to the creator too.
pub open spec fn new_item_view(c: CreateItemView, owner: Seq<u8>) -> ItemView {
    ItemView {
        title: c.title,
        description: c.description,
        owner,
        new_owner: owner,
        currency: c.currency,
        amount: c.amount,
        is_active: c.is_active,
        start_time: c.start_time,
        end_time: c.end_time,
        bid: Seq::empty(),
    }
}

/// Whether an item record still fits in one store slot.
pub open spec fn fits_item_store(v: ItemView) -> bool {
    spec_enc_item(v).len() <= MAX_VALUE_SIZE as nat
}

/// The item ledger: one storage partition of items, keyed from 1 upward by a
/// persisted counter.
pub struct ItemLedger {
    region: Region,
    next_key: u64,
    model: Ghost<Map<u64, ItemView>>,
}

impl ItemLedger {
    /// The items this ledger holds, as a map from key to item view.
    pub closed spec fn items(&self) -> Map<u64, ItemView> {
        self.model@
    }

    /// The key the next created item will receive.
    pub closed spec fn next(&self) -> u64 {
        self.next_key
    }

    /// The ledger's invariant: the model mirrors the stored bytes, every
    /// stored record is a well-formed encoding within the size bound, and
    /// every key is below the creation counter.
    pub closed spec fn wf(&self) -> bool {
        &&& self.model@.dom() == region_view(self.region).dom()
        &&& self.model@.dom().finite()
        &&& forall|k: u64|
            #[trigger] self.model@.contains_key(k) ==> wf_item_view(self.model@[k]) && region_view(
                self.region,
            )[k] == spec_enc_item(self.model@[k]) && fits_item_store(self.model@[k])
        &&& 1 <= self.next_key
        &&& forall|k: u64| #[trigger] self.model@.contains_key(k) ==> 1 <= k < self.next_key
    }

    /// A fresh, empty ledger over its own storage partition.
    pub fn new() -> (r: ItemLedger)
        ensures
            r.wf(),
            r.items() == Map::<u64, ItemView>::empty(),
            r.next() == 1,
    {
        let r = ItemLedger { region: Region::new(), next_key: 1, model: Ghost(Map::empty()) };
        proof {
            assert(r.model@.dom() =~= region_view(r.region).dom());
        }
        r
    }

    /// Reads and decodes the item stored under `key`.
    pub fn get_item(&self, key: u64) -> (r: Option<Item>)
        requires
            self.wf(),
        ensures
            match r {
                Some(item) => self.items().contains_key(key) && item@ == self.items()[key]
                    && fits_item_store(item@),
                None => !self.items().contains_key(key),
            },
    {
        match self.region.get(key) {
            None => None,
            Some(bytes) => {
                proof {
                    assert(region_view(self.region).contains_key(key));
                    assert(self.model@.contains_key(key));
                    lemma_item_codec(self.model@[key]);
                }
                match decode_item(&bytes) {
                    Some(item) => Some(item),
                    None => {
                        proof {
                            assert(false);
                        }
                        None
                    },
                }
            },
        }
    }

    /// Creates a new item under the next fresh key, owned by the caller,
    /// with an empty bid history. Rejects with `UpdateError` exactly when
    /// the encoded record would exceed the size bound or the key space is
    /// exhausted.
    pub fn create_item(&mut self, caller: &Identity, item: CreateItem) -> (r: Result<
        u64,
        AuctionError,
    >)
        requires
            old(self).wf(),
        ensures
            final(self).wf(),
            match r {
                Ok(key) => {
                    &&& old(self).next() < u64::MAX
                    &&& fits_item_store(new_item_view(item@, caller@))
                    &&& key == old(self).next()
                    &&& !old(self).items().contains_key(key)
                    &&& final(self).items() == old(self).items().insert(
                        key,
                        new_item_view(item@, caller@),
                    )
                    &&& final(self).next() == key + 1
                },
                Err(AuctionError::UpdateError) => {
                    &&& final(self).items() == old(self).items()
                    &&& final(self).next() == old(self).next()
                    &&& (old(self).next() == u64::MAX || !fits_item_store(
                        new_item_view(item@, caller@),
                    ))
                },
                Err(_) => false,
            },
    {
        let record = Item {
            title: item.title,
            description: item.description,
            owner: caller.duplicate(),
            new_owner: caller.duplicate(),
            currency: item.currency,
            amount: item.amount,
            is_active: item.is_active,
            start_time: item.start_time,
            end_time: item.end_time,
            bid: Vec::new(),
        };
        proof {
            assert(bids_view(record.bid@) =~= Seq::<BidView>::empty());
            assert(record@ == new_item_view(item@, caller@));
        }
        let enc = encode_item(&record);
        if enc.len() > MAX_VALUE_SIZE as usize {
            return Err(AuctionError::UpdateError);
        }
        if self.next_key == u64::MAX {
            return Err(AuctionError::UpdateError);
        }
        let key = self.next_key;
        self.next_key = key + 1;
        let _prev = self.region.insert(key, enc);
        proof {
            self.model@ = self.model@.insert(key, record@);
            assert(self.model@.dom() =~= region_view(self.region).dom());
        }
        Ok(key)
    }
}

} // verus!
