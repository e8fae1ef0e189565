//! The proposal ledger: governance proposals in one storage partition, with
//! one-vote-per-identity enforcement and running tallies.
use vstd::prelude::*;
use vstd::utf8::encode_utf8;

use crate::codec::enc_bool;
use crate::codec::enc_bytes;
use crate::codec::enc_str;
use crate::codec::enc_u32;
use crate::codec::enc_u64;
use crate::codec::bytes_list_view;
use crate::codec::lemma_enc_bytes_list_push;
use crate::codec::lemma_sp_bool;
use crate::codec::lemma_sp_bytes;
use crate::codec::lemma_sp_bytes_list;
use crate::codec::lemma_sp_str;
use crate::codec::lemma_sp_u32;
use crate::codec::lemma_sp_u64;
use crate::codec::p_bool;
use crate::codec::p_bytes;
use crate::codec::p_bytes_list;
use crate::codec::p_str;
use crate::codec::p_u32;
use crate::codec::p_u64;
use crate::codec::sp_bool;
use crate::codec::sp_bytes;
use crate::codec::sp_bytes_list;
use crate::codec::sp_str;
use crate::codec::sp_u32;
use crate::codec::sp_u64;
use crate::codec::spec_enc_bool;
use crate::codec::spec_enc_bytes;
use crate::codec::spec_enc_bytes_list;
use crate::codec::spec_enc_str;
use crate::codec::spec_enc_u32;
use crate::codec::spec_enc_u64;
use crate::identity::Identity;
use crate::store::region_view;
use crate::store::Region;
use crate::types::Choice;
use crate::types::VoteError;
use crate::MAX_VALUE_SIZE;

verus! {

/// One governance proposal.
pub struct Proposal {
    pub description: String,
    pub approve: u32,
    pub reject: u32,
    pub pass: u32,
    pub is_active: bool,
    pub voted: Vec<Identity>,
    pub owner: Identity,
}

/// The mathematical view of a proposal.
pub struct ProposalView {
    pub description: Seq<char>,
    pub approve: u32,
    pub reject: u32,
    pub pass: u32,
    pub is_active: bool,
    pub voted: Seq<Seq<u8>>,
    pub owner: Seq<u8>,
}

/// Maps a list of identities to the sequence of their principal bytes.
pub open spec fn identities_view(l: Seq<Identity>) -> Seq<Seq<u8>> {
    Seq::new(l.len(), |k: int| l[k]@)
}

impl View for Proposal {
    type V = ProposalView;

    open spec fn view(&self) -> ProposalView {
        ProposalView {
            description: self.description@,
            approve: self.approve,
            reject: self.reject,
            pass: self.pass,
            is_active: self.is_active,
            voted: identities_view(self.voted@),
            owner: self.owner@,
        }
    }
}

/// Field constraints under which a proposal is encodable losslessly.
pub open spec fn wf_proposal_view(v: ProposalView) -> bool {
    &&& encode_utf8(v.description).len() <= u64::MAX
    &&& v.owner.len() <= u64::MAX
    &&& v.voted.len() <= u64::MAX
    &&& forall|k: int| 0 <= k < v.voted.len() ==> #[trigger] v.voted[k].len() <= u64::MAX
}

/// The stored encoding of a proposal.
pub open spec fn spec_enc_proposal(v: ProposalView) -> Seq<u8> {
    spec_enc_str(v.description) + spec_enc_u32(v.approve) + spec_enc_u32(v.reject) + spec_enc_u32(
        v.pass,
    ) + spec_enc_bool(v.is_active) + spec_enc_u64(v.voted.len() as u64) + spec_enc_bytes_list(
        v.voted,
    ) + spec_enc_bytes(v.owner)
}

/// Parses a stored proposal; fails on anything but an exact encoding.
pub open spec fn sp_proposal(b: Seq<u8>) -> Option<ProposalView> {
    match sp_str(b, 0) {
        None => None,
        Some((description, i1)) => match sp_u32(b, i1) {
            None => None,
            Some((approve, i2)) => match sp_u32(b, i2) {
                None => None,
                Some((reject, i3)) => match sp_u32(b, i3) {
                    None => None,
                    Some((pass, i4)) => match sp_bool(b, i4) {
                        None => None,
                        Some((is_active, i5)) => match sp_u64(b, i5) {
                            None => None,
                            Some((count, i6)) => match sp_bytes_list(b, i6, count as nat) {
                                None => None,
                                Some((voted, i7)) => match sp_bytes(b, i7) {
                                    None => None,
                                    Some((owner, i8)) => if i8 == b.len() {
                                        Some(
                                            ProposalView {
                                                description,
                                                approve,
                                                reject,
                                                pass,
                                                is_active,
                                                voted,
                                                owner,
                                            },
                                        )
                                    } else {
                                        None
                                    },
                                },
                            },
                        },
                    },
                },
            },
        },
    }
}

/// The parser inverts the encoder for proposals.
pub proof fn lemma_proposal_codec(v: ProposalView)
    requires
        wf_proposal_view(v),
    ensures
        sp_proposal(spec_enc_proposal(v)) == Some(v),
{
    vstd::bytes::lemma_auto_spec_u64_to_from_le_bytes();
    vstd::bytes::lemma_auto_spec_u32_to_from_le_bytes();
    assert(vstd::bytes::spec_u32_to_le_bytes(v.approve).len() == 4);
    assert(vstd::bytes::spec_u32_to_le_bytes(v.reject).len() == 4);
    assert(vstd::bytes::spec_u32_to_le_bytes(v.pass).len() == 4);
    let b = spec_enc_proposal(v);
    let e1 = spec_enc_str(v.description);
    let e2 = spec_enc_u32(v.approve);
    let e3 = spec_enc_u32(v.reject);
    let e4 = spec_enc_u32(v.pass);
    let e5 = spec_enc_bool(v.is_active);
    let e6 = spec_enc_u64(v.voted.len() as u64);
    let e7 = spec_enc_bytes_list(v.voted);
    let e8 = spec_enc_bytes(v.owner);
    let o1 = e1.len() as int;
    let o2 = o1 + e2.len();
    let o3 = o2 + e3.len();
    let o4 = o3 + e4.len();
    let o5 = o4 + e5.len();
    let o6 = o5 + e6.len();
    let o7 = o6 + e7.len();
    let o8 = o7 + e8.len();
    assert(b.len() == o8);
    assert forall|t: int| 0 <= t < e1.len() implies b[0 + t] == #[trigger] e1[t] by {}
    assert(b.subrange(0, o1) =~= e1);
    lemma_sp_str(b, 0, v.description);
    assert forall|t: int| 0 <= t < e2.len() implies b[o1 + t] == #[trigger] e2[t] by {}
    assert(b.subrange(o1, o2) =~= e2);
    lemma_sp_u32(b, o1, v.approve);
    assert forall|t: int| 0 <= t < e3.len() implies b[o2 + t] == #[trigger] e3[t] by {}
    assert(b.subrange(o2, o3) =~= e3);
    lemma_sp_u32(b, o2, v.reject);
    assert forall|t: int| 0 <= t < e4.len() implies b[o3 + t] == #[trigger] e4[t] by {}
    assert(b.subrange(o3, o4) =~= e4);
    lemma_sp_u32(b, o3, v.pass);
    assert forall|t: int| 0 <= t < e5.len() implies b[o4 + t] == #[trigger] e5[t] by {}
    assert(b.subrange(o4, o5) =~= e5);
    lemma_sp_bool(b, o4, v.is_active);
    assert forall|t: int| 0 <= t < e6.len() implies b[o5 + t] == #[trigger] e6[t] by {}
    assert(b.subrange(o5, o6) =~= e6);
    lemma_sp_u64(b, o5, v.voted.len() as u64);
    assert forall|t: int| 0 <= t < e7.len() implies b[o6 + t] == #[trigger] e7[t] by {}
    assert(b.subrange(o6, o7) =~= e7);
    lemma_sp_bytes_list(b, o6, v.voted);
    assert forall|t: int| 0 <= t < e8.len() implies b[o7 + t] == #[trigger] e8[t] by {}
    assert(b.subrange(o7, o8) =~= e8);
    lemma_sp_bytes(b, o7, v.owner);
}

/// Encodes a proposal for storage.
pub fn encode_proposal(p: &Proposal) -> (r: Vec<u8>)
    ensures
        r@ == spec_enc_proposal(p@),
        wf_proposal_view(p@),
{
    // Reading each field's byte length here puts the bound the 64-bit
    // length prefixes need into scope for the proof.
    let _descr_len = p.description.as_str().as_bytes().len();
    let _owner_len = p.owner.bytes.len();
    let mut out: Vec<u8> = Vec::new();
    enc_str(&mut out, p.description.as_str());
    enc_u32(&mut out, p.approve);
    enc_u32(&mut out, p.reject);
    enc_u32(&mut out, p.pass);
    enc_bool(&mut out, p.is_active);
    let count = p.voted.len();
    enc_u64(&mut out, count as u64);
    let ghost prefix = out@;
    let mut i: usize = 0;
    while i < count
        invariant
            i <= count,
            count == p.voted@.len(),
            out@ == prefix + spec_enc_bytes_list(identities_view(p.voted@.subrange(0, i as int))),
            forall|k: int| 0 <= k < i ==> #[trigger] p.voted@[k]@.len() <= u64::MAX,
        decreases count - i,
    {
        let ghost sofar = identities_view(p.voted@.subrange(0, i as int));
        let vlen = p.voted[i].bytes.len();
        assert(vlen <= u64::MAX);
        enc_bytes(&mut out, p.voted[i].bytes.as_slice());
        proof {
            lemma_enc_bytes_list_push(sofar, p.voted@[i as int]@);
            assert(identities_view(p.voted@.subrange(0, i + 1)) =~= sofar.push(
                p.voted@[i as int]@,
            ));
        }
        i = i + 1;
    }
    proof {
        assert(p.voted@.subrange(0, count as int) =~= p.voted@);
        assert(identities_view(p.voted@).len() == p.voted@.len());
    }
    enc_bytes(&mut out, p.owner.bytes.as_slice());
    proof {
        assert(out@ =~= spec_enc_proposal(p@));
    }
    out
}

/// Decodes a stored proposal; `None` on anything but an exact encoding.
pub fn decode_proposal(b: &Vec<u8>) -> (r: Option<Proposal>)
    ensures
        match r {
            Some(p) => sp_proposal(b@) == Some(p@) && wf_proposal_view(p@),
            None => sp_proposal(b@) is None,
        },
{
    let (description, i1) = match p_str(b, 0) {
        None => {
            return None;
        },
        Some(p) => p,
    };
    let (approve, i2) = match p_u32(b, i1) {
        None => {
            return None;
        },
        Some(p) => p,
    };
    let (reject, i3) = match p_u32(b, i2) {
        None => {
            return None;
        },
        Some(p) => p,
    };
    let (pass, i4) = match p_u32(b, i3) {
        None => {
            return None;
        },
        Some(p) => p,
    };
    let (is_active, i5) = match p_bool(b, i4) {
        None => {
            return None;
        },
        Some(p) => p,
    };
    let (count, i6) = match p_u64(b, i5) {
        None => {
            return None;
        },
        Some(p) => p,
    };
    let (mut raw, i7) = match p_bytes_list(b, i6, count) {
        None => {
            return None;
        },
        Some(p) => p,
    };
    let (owner, i8) = match p_bytes(b, i7) {
        None => {
            return None;
        },
        Some(p) => p,
    };
    if i8 != b.len() {
        return None;
    }
    let blen = b.len();
    proof {
        crate::codec::lemma_sp_bytes_list_props(b@, i6 as int, count as nat);
        assert(blen <= u64::MAX);
    }
    let ghost raw_views = bytes_list_view(raw@);
    let mut voted: Vec<Identity> = Vec::new();
    while raw.len() > 0
        invariant
            identities_view(voted@) + bytes_list_view(raw@) =~= raw_views,
        decreases raw@.len(),
    {
        let ghost before_ids = identities_view(voted@);
        let ghost before_raw = bytes_list_view(raw@);
        let v = raw.remove(0);
        voted.push(Identity { bytes: v });
        proof {
            assert(identities_view(voted@) =~= before_ids.push(v@));
            assert(bytes_list_view(raw@) =~= before_raw.drop_first());
            assert(identities_view(voted@) + bytes_list_view(raw@) =~= before_ids + before_raw);
        }
    }
    proof {
        assert(bytes_list_view(raw@) =~= Seq::<Seq<u8>>::empty());
        assert(identities_view(voted@) =~= raw_views);
    }
    let p = Proposal {
        description,
        approve,
        reject,
        pass,
        is_active,
        voted,
        owner: Identity { bytes: owner },
    };
    Some(p)
}


/// Data for creating a new proposal.
pub struct CreateProposal {
    pub description: String,
    pub is_active: bool,
}

/// The mathematical view of the creation data.
pub struct CreateProposalView {
    pub description: Seq<char>,
    pub is_active: bool,
}

impl View for CreateProposal {
    type V = CreateProposalView;

    open spec fn view(&self) -> CreateProposalView {
        CreateProposalView { description: self.description@, is_active: self.is_active }
    }
}

/// The record a creation request stores: zero tallies, no votes cast, owned
/// by the creator.
pub open spec fn new_proposal_view(c: CreateProposalView, owner: Seq<u8>) -> ProposalView {
    ProposalView {
        description: c.description,
        approve: 0,
        reject: 0,
        pass: 0,
        is_active: c.is_active,
        voted: Seq::empty(),
        owner,
    }
}

/// The tally a vote choice raises.
pub open spec fn vote_tally(v: ProposalView, c: Choice) -> u32 {
    match c {
        Choice::Approve => v.approve,
        Choice::Reject => v.reject,
        Choice::Pass => v.pass,
    }
}

/// The proposal after one accepted vote: the caller joins `voted` and the
/// chosen tally rises by one.
pub open spec fn with_vote(v: ProposalView, caller: Seq<u8>, c: Choice) -> ProposalView {
    match c {
        Choice::Approve => ProposalView {
            approve: (v.approve + 1) as u32,
            voted: v.voted.push(caller),
            ..v
        },
        Choice::Reject => ProposalView {
            reject: (v.reject + 1) as u32,
            voted: v.voted.push(caller),
            ..v
        },
        Choice::Pass => ProposalView { pass: (v.pass + 1) as u32, voted: v.voted.push(caller), ..v },
    }
}

/// Accepts a vote exactly when the proposal is active, the caller has not
/// voted before, and the chosen tally can still rise.
pub open spec fn cast_vote_step(v: ProposalView, caller: Seq<u8>, c: Choice) -> Result<
    ProposalView,
    VoteError,
> {
    if !v.is_active {
        Err(VoteError::ProposalIsNotActive)
    } else if v.voted.contains(caller) {
        Err(VoteError::AlreadyVoted)
    } else if vote_tally(v, c) == u32::MAX {
        Err(VoteError::UpdateError)
    } else {
        Ok(with_vote(v, caller, c))
    }
}

/// Whether a proposal record still fits in one store slot.
pub open spec fn fits_proposal_store(v: ProposalView) -> bool {
    spec_enc_proposal(v).len() <= MAX_VALUE_SIZE as nat
}

/// The ledger-level outcome of a `CastVote` call.
pub open spec fn cast_vote_outcome(
    m: Map<u64, ProposalView>,
    caller: Seq<u8>,
    key: u64,
    c: Choice,
) -> Result<Map<u64, ProposalView>, VoteError> {
    if !m.contains_key(key) {
        Err(VoteError::NoSuchProposal)
    } else {
        match cast_vote_step(m[key], caller, c) {
            Err(e) => Err(e),
            Ok(nv) => if fits_proposal_store(nv) {
                Ok(m.insert(key, nv))
            } else {
                Err(VoteError::UpdateError)
            },
        }
    }
}

/// No identity appears twice among the voters.
pub open spec fn unique_voters(l: Seq<Seq<u8>>) -> bool {
    forall|i: int, j: int| 0 <= i < j < l.len() ==> l[i] != l[j]
}

/// Tests whether `id` already appears in a list of identities.
pub fn contains_identity(list: &Vec<Identity>, id: &Identity) -> (r: bool)
    ensures
        r == identities_view(list@).contains(id@),
{
    let n = list.len();
    let mut i: usize = 0;
    while i < n
        invariant
            i <= n,
            n == list@.len(),
            forall|k: int| 0 <= k < i ==> identities_view(list@)[k] != id@,
        decreases n - i,
    {
        if list[i].same_as(id) {
            proof {
                assert(identities_view(list@)[i as int] == id@);
            }
            return true;
        }
        i = i + 1;
    }
    proof {
        assert forall|k: int|
            0 <= k < identities_view(list@).len() implies identities_view(list@)[k] != id@ by {}
    }
    false
}

/// The proposal ledger: one storage partition of proposals, keyed from 1
/// upward by a persisted counter.
pub struct ProposalLedger {
    region: Region,
    next_key: u64,
    model: Ghost<Map<u64, ProposalView>>,
}

impl ProposalLedger {
    /// The proposals this ledger holds, as a map from key to proposal view.
    pub closed spec fn proposals(&self) -> Map<u64, ProposalView> {
        self.model@
    }

    /// The key the next created proposal will receive.
    pub closed spec fn next(&self) -> u64 {
        self.next_key
    }

    /// The ledger's invariant: the model mirrors the stored bytes, every
    /// stored record is a well-formed encoding within the size bound with no
    /// duplicate voters, and every key is below the creation counter.
    pub closed spec fn wf(&self) -> bool {
        &&& self.model@.dom() == region_view(self.region).dom()
        &&& self.model@.dom().finite()
        &&& forall|k: u64|
            #[trigger] self.model@.contains_key(k) ==> wf_proposal_view(self.model@[k])
                && region_view(self.region)[k] == spec_enc_proposal(self.model@[k])
                && fits_proposal_store(self.model@[k]) && unique_voters(self.model@[k].voted)
        &&& 1 <= self.next_key
        &&& forall|k: u64| #[trigger] self.model@.contains_key(k) ==> 1 <= k < self.next_key
    }

    /// A fresh, empty ledger over its own storage partition.
    pub fn new() -> (r: ProposalLedger)
        ensures
            r.wf(),
            r.proposals() == Map::<u64, ProposalView>::empty(),
            r.next() == 1,
    {
        let r = ProposalLedger {
            region: Region::new(),
            next_key: 1,
            model: Ghost(Map::empty()),
        };
        proof {
            assert(r.model@.dom() =~= region_view(r.region).dom());
        }
        r
    }

    /// Reads and decodes the proposal stored under `key`.
    pub fn get_proposal(&self, key: u64) -> (r: Option<Proposal>)
        requires
            self.wf(),
        ensures
            match r {
                Some(p) => self.proposals().contains_key(key) && p@ == self.proposals()[key]
                    && fits_proposal_store(p@),
                None => !self.proposals().contains_key(key),
            },
    {
        match self.region.get(key) {
            None => None,
            Some(bytes) => {
                proof {
                    assert(region_view(self.region).contains_key(key));
                    assert(self.model@.contains_key(key));
                    lemma_proposal_codec(self.model@[key]);
                }
                match decode_proposal(&bytes) {
                    Some(p) => Some(p),
                    None => {
                        proof {
                            assert(false);
                        }
                        None
                    },
                }
            },
        }
    }

    /// Creates a new proposal under the next fresh key, owned by the caller.
    /// Rejects with `UpdateError` exactly when the encoded record would
    /// exceed the size bound or the key space is exhausted.
    pub fn create_proposal(&mut self, caller: &Identity, proposal: CreateProposal) -> (r: Result<
        u64,
        VoteError,
    >)
        requires
            old(self).wf(),
        ensures
            final(self).wf(),
            match r {
                Ok(key) => {
                    &&& old(self).next() < u64::MAX
                    &&& fits_proposal_store(new_proposal_view(proposal@, caller@))
                    &&& key == old(self).next()
                    &&& !old(self).proposals().contains_key(key)
                    &&& final(self).proposals() == old(self).proposals().insert(
                        key,
                        new_proposal_view(proposal@, caller@),
                    )
                    &&& final(self).next() == key + 1
                },
                Err(VoteError::UpdateError) => {
                    &&& final(self).proposals() == old(self).proposals()
                    &&& final(self).next() == old(self).next()
                    &&& (old(self).next() == u64::MAX || !fits_proposal_store(
                        new_proposal_view(proposal@, caller@),
                    ))
                },
                Err(_) => false,
            },
    {
        let record = Proposal {
            description: proposal.description,
            approve: 0,
            reject: 0,
            pass: 0,
            is_active: proposal.is_active,
            voted: Vec::new(),
            owner: caller.duplicate(),
        };
        proof {
            assert(identities_view(record.voted@) =~= Seq::<Seq<u8>>::empty());
            assert(record@ == new_proposal_view(proposal@, caller@));
        }
        let enc = encode_proposal(&record);
        if enc.len() > MAX_VALUE_SIZE as usize {
            return Err(VoteError::UpdateError);
        }
        if self.next_key == u64::MAX {
            return Err(VoteError::UpdateError);
        }
        let key = self.next_key;
        self.next_key = key + 1;
        let _prev = self.region.insert(key, enc);
        proof {
            self.model@ = self.model@.insert(key, record@);
            assert(self.model@.dom() =~= region_view(self.region).dom());
        }
        Ok(key)
    }

    /// Casts the caller's vote on the proposal stored under `key`.
    pub fn cast_vote(&mut self, caller: &Identity, key: u64, choice: Choice) -> (r: Result<
        (),
        VoteError,
    >)
        requires
            old(self).wf(),
        ensures
            final(self).wf(),
            final(self).next() == old(self).next(),
            match cast_vote_outcome(old(self).proposals(), caller@, key, choice) {
                Ok(nm) => r == Ok::<(), VoteError>(()) && final(self).proposals() == nm,
                Err(e) => r == Err::<(), VoteError>(e) && final(self).proposals() == old(
                    self,
                ).proposals(),
            },
    {
        let bytes = match self.region.get(key) {
            None => {
                return Err(VoteError::NoSuchProposal);
            },
            Some(v) => v,
        };
        proof {
            assert(region_view(self.region).contains_key(key));
            assert(self.model@.contains_key(key));
            lemma_proposal_codec(self.model@[key]);
        }
        let mut record = match decode_proposal(&bytes) {
            Some(p) => p,
            None => {
                proof {
                    assert(false);
                }
                return Err(VoteError::NoSuchProposal);
            },
        };
        if !record.is_active {
            return Err(VoteError::ProposalIsNotActive);
        }
        if contains_identity(&record.voted, caller) {
            return Err(VoteError::AlreadyVoted);
        }
        match choice {
            Choice::Approve => {
                if record.approve == u32::MAX {
                    return Err(VoteError::UpdateError);
                }
                record.approve = record.approve + 1;
            },
            Choice::Reject => {
                if record.reject == u32::MAX {
                    return Err(VoteError::UpdateError);
                }
                record.reject = record.reject + 1;
            },
            Choice::Pass => {
                if record.pass == u32::MAX {
                    return Err(VoteError::UpdateError);
                }
                record.pass = record.pass + 1;
            },
        }
        let ghost before = record.voted@;
        record.voted.push(caller.duplicate());
        proof {
            assert(identities_view(record.voted@) =~= identities_view(before).push(caller@));
            assert(record@ == with_vote(old(self).proposals()[key], caller@, choice));
        }
        let enc = encode_proposal(&record);
        if enc.len() > MAX_VALUE_SIZE as usize {
            return Err(VoteError::UpdateError);
        }
        let _prev = self.region.insert(key, enc);
        proof {
            self.model@ = self.model@.insert(key, record@);
            assert(self.model@.dom() =~= region_view(self.region).dom());
        }
        Ok(())
    }
}

/// Casting the same identity's vote twice on one proposal fails the second
/// time with `AlreadyVoted`, whatever either vote chose.
pub proof fn lemma_no_double_vote(v: ProposalView, caller: Seq<u8>, c1: Choice, c2: Choice)
    requires
        cast_vote_step(v, caller, c1) is Ok,
    ensures
        match cast_vote_step(v, caller, c1) {
            Ok(w) => cast_vote_step(w, caller, c2) == Err::<ProposalView, VoteError>(
                VoteError::AlreadyVoted,
            ),
            Err(_) => false,
        },
{
    match cast_vote_step(v, caller, c1) {
        Ok(w) => {
            assert(w.voted[w.voted.len() - 1] == caller);
            assert(w.voted.contains(caller));
        },
        Err(_) => {},
    }
}

} // verus!
