//! One storage partition: an ordered stable-structures map from 64-bit keys
//! to encoded records. Every partition is built over its own `VectorMemory`,
//! a memory buffer allocated by that call alone on every compilation target,
//! so no two partitions ever share bytes. (The target's shared stable memory
//! would alias partitions unless split by a memory manager, which needs a
//! process-wide owner that this library does not hold; a deployment that
//! wants it routes its virtual memories here instead.) The map's behaviour
//! is stated as trusted contracts over `region_view`; everything built on
//! top of it is verified.
use vstd::prelude::*;

use ic_stable_structures::btreemap::BTreeMap;
use ic_stable_structures::VectorMemory;

verus! {

/// One storage partition. Verus refuses the stable map's own type (its memory
/// parameter is a `RefCell`), so the map lives in a hidden field and is
/// reached only through the trusted methods below.
#[verifier::external_body]
pub struct Region {
    map: BTreeMap<u64, Vec<u8>, VectorMemory>,
}

/// The entries held by one partition, as a map from key to stored byte string.
pub uninterp spec fn region_view(r: Region) -> Map<u64, Seq<u8>>;

impl Region {
    /// Relies on `BTreeMap::new`: a map over fresh memory holds no entries.
    /// The memory is a `VectorMemory` created here, so it is empty and owned
    /// by this region alone, whatever the target.
    #[verifier::external_body]
    pub fn new() -> (r: Region)
        ensures
            region_view(r) =~= Map::empty(),
    {
        Region { map: BTreeMap::new(VectorMemory::default()) }
    }

    /// Relies on `BTreeMap::get`: returns the value stored under `key`, if any.
    #[verifier::external_body]
    pub fn get(&self, key: u64) -> (r: Option<Vec<u8>>)
        ensures
            match r {
                Some(v) => region_view(*self).contains_key(key) && region_view(*self)[key] == v@,
                None => !region_view(*self).contains_key(key),
            },
    {
        self.map.get(&key)
    }

    /// Relies on `BTreeMap::insert`: stores `value` under `key` and returns
    /// the value previously stored there, if any. `Vec<u8>` values are
    /// unbounded for the stable map, so the write itself never rejects.
    #[verifier::external_body]
    pub fn insert(&mut self, key: u64, value: Vec<u8>) -> (prev: Option<Vec<u8>>)
        ensures
            region_view(*final(self)) =~= region_view(*old(self)).insert(key, value@),
            match prev {
                Some(p) => region_view(*old(self)).contains_key(key) && region_view(*old(self))[key]
                    == p@,
                None => !region_view(*old(self)).contains_key(key),
            },
    {
        self.map.insert(key, value)
    }

    /// Relies on `BTreeMap::len`: the number of entries in the map.
    #[verifier::external_body]
    pub fn len(&self) -> (n: u64)
        ensures
            n as nat == region_view(*self).dom().len(),
    {
        self.map.len()
    }

    /// Relies on `BTreeMap::iter`: all entries of the map, sorted by key in
    /// ascending order.
    #[verifier::external_body]
    pub fn entries(&self) -> (r: Vec<(u64, Vec<u8>)>)
        ensures
            r@.len() == region_view(*self).dom().len(),
            forall|i: int|
                #![trigger r@[i]]
                0 <= i < r@.len() ==> region_view(*self).contains_key(r@[i].0) && region_view(
                    *self,
                )[r@[i].0] == r@[i].1@,
            forall|k: u64|
                region_view(*self).contains_key(k) ==> exists|i: int|
                    #![trigger r@[i]]
                    0 <= i < r@.len() && r@[i].0 == k,
            forall|i: int, j: int|
                #![trigger r@[i], r@[j]]
                0 <= i < j < r@.len() ==> r@[i].0 < r@[j].0,
    {
        self.map.iter().map(|e| e.into_pair()).collect()
    }
}

} // verus!
