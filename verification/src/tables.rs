//! The hash maps of the `hashbrown` crate that the process keeps its state
//! in, hashed with the `rustc-hash` crate. Each is seen as a mathematical map.

use crate::rate::Rate;
use crate::rate_limiter::Bucket;
use hashbrown::HashMap;
use rustc_hash::FxBuildHasher;
use vstd::prelude::*;

verus! {

/// Open connections by client address.
#[verifier::external_body]
pub struct SlotTable {
    map: HashMap<(bool, u128), usize, FxBuildHasher>,
}

/// The entries of the table.
pub uninterp spec fn slots_in(table: SlotTable) -> Map<(bool, u128), usize>;

impl SlotTable {
    /// `HashMap::with_hasher` makes an empty map.
    #[verifier::external_body]
    pub(crate) fn new() -> (res: SlotTable)
        ensures
            slots_in(res) == (Map::<(bool, u128), usize>::empty()),
    {
        SlotTable { map: HashMap::with_hasher(FxBuildHasher) }
    }

    /// `HashMap::get` finds the value under a key.
    #[verifier::external_body]
    pub(crate) fn get(&self, key: (bool, u128)) -> (res: Option<usize>)
        ensures
            res == (if slots_in(*self).contains_key(key) {
                Some(slots_in(*self)[key])
            } else {
                None
            }),
    {
        self.map.get(&key).copied()
    }

    /// `HashMap::insert` puts a value under a key, in place of what was there.
    #[verifier::external_body]
    pub(crate) fn insert(&mut self, key: (bool, u128), value: usize)
        ensures
            slots_in(*final(self)) == slots_in(*old(self)).insert(key, value),
    {
        self.map.insert(key, value);
    }

    /// `HashMap::remove` takes out the entry under a key, if there is one.
    #[verifier::external_body]
    pub(crate) fn remove(&mut self, key: (bool, u128))
        ensures
            slots_in(*final(self)) == slots_in(*old(self)).remove(key),
    {
        self.map.remove(&key);
    }

    /// `HashMap::len` is the number of entries.
    #[verifier::external_body]
    pub(crate) fn len(&self) -> (res: usize)
        ensures
            res == slots_in(*self).dom().len(),
    {
        self.map.len()
    }
}

/// Token buckets by client address.
#[verifier::external_body]
pub struct BucketTable {
    map: HashMap<(bool, u128), Bucket, FxBuildHasher>,
}

/// The entries of the table.
pub uninterp spec fn buckets_in(table: BucketTable) -> Map<(bool, u128), Bucket>;

impl BucketTable {
    /// `HashMap::with_hasher` makes an empty map.
    #[verifier::external_body]
    pub(crate) fn new() -> (res: BucketTable)
        ensures
            buckets_in(res) == (Map::<(bool, u128), Bucket>::empty()),
    {
        BucketTable { map: HashMap::with_hasher(FxBuildHasher) }
    }

    /// `HashMap::get` finds the value under a key.
    #[verifier::external_body]
    pub(crate) fn get(&self, key: (bool, u128)) -> (res: Option<Bucket>)
        ensures
            res == (if buckets_in(*self).contains_key(key) {
                Some(buckets_in(*self)[key])
            } else {
                None
            }),
    {
        self.map.get(&key).copied()
    }

    /// `HashMap::insert` puts a value under a key, in place of what was there.
    #[verifier::external_body]
    pub(crate) fn insert(&mut self, key: (bool, u128), value: Bucket)
        ensures
            buckets_in(*final(self)) == buckets_in(*old(self)).insert(key, value),
    {
        self.map.insert(key, value);
    }

    /// `HashMap::retain` keeps exactly the entries for which the closure holds;
    /// here it holds for the buckets that are not full.
    #[verifier::external_body]
    pub(crate) fn retain_recovering(&mut self, now: u64, rate: Rate, burst: u64)
        ensures
            buckets_in(*final(self)) == crate::rate_limiter::still_recovering(
                buckets_in(*old(self)),
                now,
                rate,
                burst,
            ),
    {
        self.map.retain(|_, bucket| bucket.is_recovering(now, rate, burst))
    }

    /// `HashMap::len` is the number of entries.
    #[verifier::external_body]
    pub(crate) fn len(&self) -> (res: usize)
        ensures
            res == buckets_in(*self).dom().len(),
    {
        self.map.len()
    }
}

/// Places of routes by server name.
#[verifier::external_body]
pub struct RouteTable {
    map: HashMap<String, usize, FxBuildHasher>,
}

/// The entries of the table.
pub uninterp spec fn routes_in(table: RouteTable) -> Map<Seq<char>, usize>;

impl RouteTable {
    /// `HashMap::with_hasher` makes an empty map.
    #[verifier::external_body]
    pub(crate) fn new() -> (res: RouteTable)
        ensures
            routes_in(res) == (Map::<Seq<char>, usize>::empty()),
    {
        RouteTable { map: HashMap::with_hasher(FxBuildHasher) }
    }

    /// `HashMap::get` finds the value under a key. A `str` is hashed and
    /// compared like the `String` with the same characters.
    #[verifier::external_body]
    pub(crate) fn get(&self, name: &str) -> (res: Option<usize>)
        ensures
            res == (if routes_in(*self).contains_key(name@) {
                Some(routes_in(*self)[name@])
            } else {
                None
            }),
    {
        self.map.get(name).copied()
    }

    /// `HashMap::insert` puts a value under a key, in place of what was there.
    #[verifier::external_body]
    pub(crate) fn insert(&mut self, name: String, place: usize)
        ensures
            routes_in(*final(self)) == routes_in(*old(self)).insert(name@, place),
    {
        self.map.insert(name, place);
    }
}

} // verus!
