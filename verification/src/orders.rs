//! Open-orders records, the extraction snapshot, and the time-bounded
//! cache of open-orders lookups.

use vstd::prelude::*;

use crate::address::Address;

verus! {

/// Copies a vector of plain values.
pub fn copy_vec<T: Copy>(v: &Vec<T>) -> (r: Vec<T>)
    ensures
        r@ == v@,
{
    let mut r: Vec<T> = Vec::new();
    let n: usize = v.len();
    let mut i: usize = 0;
    while i < n
        invariant
            n == v@.len(),
            0 <= i <= n,
            r@ == v@.subrange(0, i as int),
        decreases n - i,
    {
        r.push(v[i]);
        proof {
            assert(r@ =~= v@.subrange(0, i + 1));
        }
        i = i + 1;
    }
    proof {
        assert(r@ =~= v@);
    }
    r
}

/// One open-orders account, as the remote lookup reports it.
#[derive(Clone, Copy, Debug)]
pub struct OpenOrders {
    /// The market the record belongs to.
    pub market: Address,
    /// The record's own account address.
    pub address: Address,
    /// The wallet that owns the record.
    pub owner: Address,
}

impl OpenOrders {
    /// Builds an open-orders record from its three addresses.
    pub fn new(market: Address, address: Address, owner: Address) -> (r: OpenOrders)
        ensures
            r.market == market,
            r.address == address,
            r.owner == owner,
    {
        OpenOrders { market, address, owner }
    }
}

/// The result of one extraction pass over the two book sides.
///
/// Prices are raw integer ticks; dividing by 10,000 yields the human
/// scale, which is left to the caller so the library stays on integers.
/// A zero `min_ask` or `max_bid` means the side held no orders.
#[derive(Debug)]
pub struct MarketInfo {
    /// Price of the least ask key, 0 when the ask side is empty.
    pub min_ask: u64,
    /// Price of the greatest bid key, 0 when the bid side is empty.
    pub max_bid: u64,
    /// The caller's resting ask order ids, low key to high.
    pub open_asks: Vec<u128>,
    /// The caller's resting bid order ids found by the top-of-book pass.
    pub open_bids: Vec<u128>,
    /// The bid-side tree account.
    pub bids_address: Address,
    /// The ask-side tree account.
    pub asks_address: Address,
    /// Tick prices of `open_asks`, index by index.
    pub open_asks_prices: Vec<u64>,
    /// Tick prices of `open_bids`, index by index.
    pub open_bids_prices: Vec<u64>,
    /// Settled base-currency total; the extraction pass leaves it 0.
    pub base_total: u64,
    /// Settled quote-currency total; the extraction pass leaves it 0.
    pub quote_total: u64,
}

/// Two snapshots hold the same values.
pub open spec fn same_info(a: MarketInfo, b: MarketInfo) -> bool {
    &&& a.min_ask == b.min_ask
    &&& a.max_bid == b.max_bid
    &&& a.open_asks@ == b.open_asks@
    &&& a.open_bids@ == b.open_bids@
    &&& a.bids_address@ == b.bids_address@
    &&& a.asks_address@ == b.asks_address@
    &&& a.open_asks_prices@ == b.open_asks_prices@
    &&& a.open_bids_prices@ == b.open_bids_prices@
    &&& a.base_total == b.base_total
    &&& a.quote_total == b.quote_total
}

impl MarketInfo {
    /// The snapshot before any load: empty sides and zero addresses.
    pub fn empty() -> (r: MarketInfo)
        ensures
            r.min_ask == 0,
            r.max_bid == 0,
            r.open_asks@.len() == 0,
            r.open_bids@.len() == 0,
            r.bids_address@ == Seq::<u8>::new(32, |i: int| 0u8),
            r.asks_address@ == Seq::<u8>::new(32, |i: int| 0u8),
            r.open_asks_prices@.len() == 0,
            r.open_bids_prices@.len() == 0,
            r.base_total == 0,
            r.quote_total == 0,
    {
        MarketInfo {
            min_ask: 0,
            max_bid: 0,
            open_asks: Vec::new(),
            open_bids: Vec::new(),
            bids_address: Address::zeroed(),
            asks_address: Address::zeroed(),
            open_asks_prices: Vec::new(),
            open_bids_prices: Vec::new(),
            base_total: 0,
            quote_total: 0,
        }
    }

    /// Hands back a copy of the snapshot.
    pub fn duplicate(&self) -> (r: MarketInfo)
        ensures
            same_info(r, *self),
    {
        MarketInfo {
            min_ask: self.min_ask,
            max_bid: self.max_bid,
            open_asks: copy_vec(&self.open_asks),
            open_bids: copy_vec(&self.open_bids),
            bids_address: self.bids_address,
            asks_address: self.asks_address,
            open_asks_prices: copy_vec(&self.open_asks_prices),
            open_bids_prices: copy_vec(&self.open_bids_prices),
            base_total: self.base_total,
            quote_total: self.quote_total,
        }
    }
}

/// A cached open-orders lookup: the account addresses found for one owner
/// and the millisecond clock reading at which they were captured.
#[derive(Debug)]
pub struct OpenOrdersCacheEntry {
    /// The owner's open-orders account addresses.
    pub accounts: Vec<Address>,
    /// Milliseconds since the epoch when the lookup was captured.
    pub ts: u64,
}

/// One owner's slot in the cache.
#[derive(Debug)]
pub struct CacheSlot {
    /// The owner the entry belongs to.
    pub owner: Address,
    /// The cached lookup.
    pub entry: OpenOrdersCacheEntry,
}

/// An entry is fresh when its timestamp is no later than the clock reading
/// and still inside the window.
pub open spec fn fresh(ts: u64, now: u64, dur: u64) -> bool {
    ts <= now && now - ts < dur
}

/// Freshness of a cache entry, as executable code.
pub fn is_fresh(ts: u64, now: u64, dur: u64) -> (r: bool)
    ensures
        r == fresh(ts, now, dur),
{
    ts <= now && now - ts < dur
}

/// The first slot of `s` that belongs to `owner`.
pub open spec fn find_slot(s: Seq<CacheSlot>, owner: Seq<u8>) -> Option<CacheSlot>
    decreases s.len(),
{
    if s.len() == 0 {
        None
    } else if s[0].owner@ == owner {
        Some(s[0])
    } else {
        find_slot(s.drop_first(), owner)
    }
}

/// Skipping slots that do not belong to `owner` does not change the find.
proof fn lemma_find_slot_skip(s: Seq<CacheSlot>, owner: Seq<u8>, k: int)
    requires
        0 <= k <= s.len(),
        forall|i: int| 0 <= i < k ==> (#[trigger] s[i].owner)@ != owner,
    ensures
        find_slot(s, owner) == find_slot(s.subrange(k, s.len() as int), owner),
    decreases k,
{
    if k > 0 {
        assert(s[0].owner@ != owner);
        assert(s.drop_first() =~= s.subrange(1, s.len() as int));
        assert(forall|i: int|
            0 <= i < k - 1 ==> (#[trigger] s.drop_first()[i].owner)@ != owner) by {
            assert(forall|i: int|
                0 <= i < k - 1 ==> s.drop_first()[i] == #[trigger] s[i + 1]);
        }
        lemma_find_slot_skip(s.drop_first(), owner, k - 1);
        assert(s.drop_first().subrange(k - 1, s.drop_first().len() as int) =~= s.subrange(
            k,
            s.len() as int,
        ));
    } else {
        assert(s.subrange(0, s.len() as int) =~= s);
    }
}

/// A find that misses means no slot belongs to `owner`.
proof fn lemma_find_slot_none(s: Seq<CacheSlot>, owner: Seq<u8>)
    ensures
        find_slot(s, owner) is None <==> forall|i: int|
            0 <= i < s.len() ==> (#[trigger] s[i].owner)@ != owner,
    decreases s.len(),
{
    if s.len() > 0 {
        lemma_find_slot_none(s.drop_first(), owner);
        assert(forall|i: int|
            1 <= i < s.len() ==> s.drop_first()[i - 1] == #[trigger] s[i]);
        if find_slot(s, owner) is None {
            assert(forall|i: int|
                0 <= i < s.len() ==> (#[trigger] s[i].owner)@ != owner) by {
                assert(forall|i: int|
                    1 <= i < s.len() ==> (#[trigger] s[i].owner)@ == s.drop_first()[i - 1].owner@);
            }
        }
    }
}

/// Replacing a slot with one of the same owner leaves every other owner's
/// find unchanged.
proof fn lemma_find_slot_update_other(s: Seq<CacheSlot>, i: int, v: CacheSlot, o: Seq<u8>)
    requires
        0 <= i < s.len(),
        v.owner@ == s[i].owner@,
        o != s[i].owner@,
    ensures
        find_slot(s.update(i, v), o) == find_slot(s, o),
    decreases s.len(),
{
    let t = s.update(i, v);
    if i == 0 {
        assert(t.drop_first() =~= s.drop_first());
    } else {
        assert(t[0] == s[0]);
        if s[0].owner@ != o {
            assert(t.drop_first() =~= s.drop_first().update(i - 1, v));
            lemma_find_slot_update_other(s.drop_first(), i - 1, v, o);
        }
    }
}

/// Appending a slot of another owner leaves a find unchanged.
proof fn lemma_find_slot_push_other(s: Seq<CacheSlot>, v: CacheSlot, o: Seq<u8>)
    requires
        o != v.owner@,
    ensures
        find_slot(s.push(v), o) == find_slot(s, o),
    decreases s.len(),
{
    let t = s.push(v);
    if s.len() == 0 {
        assert(t[0] == v);
        assert(t.drop_first() =~= Seq::<CacheSlot>::empty());
    } else {
        assert(t[0] == s[0]);
        if s[0].owner@ != o {
            assert(t.drop_first() =~= s.drop_first().push(v));
            lemma_find_slot_push_other(s.drop_first(), v, o);
        }
    }
}

/// The cache of open-orders lookups: at most one slot per owner address.
#[derive(Debug)]
pub struct OpenOrdersCache {
    /// The slots, each owner at most once.
    pub slots: Vec<CacheSlot>,
}

impl OpenOrdersCache {
    /// Every owner appears in at most one slot.
    pub open spec fn wf(self) -> bool {
        forall|i: int, j: int|
            0 <= i < j < self.slots@.len() ==> (#[trigger] self.slots@[i].owner)@ != (
            #[trigger] self.slots@[j].owner)@
    }

    /// The slot cached for `owner`, if any.
    pub open spec fn spec_find(self, owner: Seq<u8>) -> Option<CacheSlot> {
        find_slot(self.slots@, owner)
    }

    /// An empty cache; entries appear on the first lookup per owner.
    pub fn new() -> (r: OpenOrdersCache)
        ensures
            r.wf(),
            r.slots@.len() == 0,
    {
        OpenOrdersCache { slots: Vec::new() }
    }

    /// Index of the slot that belongs to `owner`, if any.
    fn find_index(&self, owner: &Address) -> (r: Option<usize>)
        ensures
            r matches Some(i) ==> i < self.slots@.len() && self.slots@[i as int].owner@ == owner@
                && self.spec_find(owner@) == Some(self.slots@[i as int]) && forall|j: int|
                0 <= j < i ==> (#[trigger] self.slots@[j].owner)@ != owner@,
            r is None ==> self.spec_find(owner@) is None,
    {
        let n: usize = self.slots.len();
        let mut i: usize = 0;
        while i < n
            invariant
                n == self.slots@.len(),
                0 <= i <= n,
                forall|j: int| 0 <= j < i ==> (#[trigger] self.slots@[j].owner)@ != owner@,
            decreases n - i,
        {
            if self.slots[i].owner == *owner {
                proof {
                    lemma_find_slot_skip(self.slots@, owner@, i as int);
                    assert(self.slots@.subrange(i as int, n as int)[0] == self.slots@[i as int]);
                }
                return Some(i);
            }
            i = i + 1;
        }
        proof {
            lemma_find_slot_none(self.slots@, owner@);
        }
        None
    }

    /// The entry cached for `owner`, when it is fresh at clock reading
    /// `now_ms` for the window `cache_duration_ms`.
    pub fn lookup_fresh(&self, owner: &Address, now_ms: u64, cache_duration_ms: u64) -> (r: Option<
        Vec<Address>,
    >)
        ensures
            r matches Some(v) ==> self.spec_find(owner@) matches Some(slot) && fresh(
                slot.entry.ts,
                now_ms,
                cache_duration_ms,
            ) && v@ == slot.entry.accounts@,
            r is None ==> (self.spec_find(owner@) matches Some(slot) ==> !fresh(
                slot.entry.ts,
                now_ms,
                cache_duration_ms,
            )),
    {
        match self.find_index(owner) {
            Some(i) => {
                let e: &OpenOrdersCacheEntry = &self.slots[i].entry;
                if is_fresh(e.ts, now_ms, cache_duration_ms) {
                    Some(copy_vec(&e.accounts))
                } else {
                    None
                }
            },
            None => None,
        }
    }

    /// Stores the lookup result for `owner`, overwriting any earlier slot.
    ///
    /// The timestamp written never moves backwards: an overwrite keeps the
    /// later of the old timestamp and the clock reading handed in.
    pub fn store(&mut self, owner: &Address, accounts: Vec<Address>, now_ms: u64)
        ensures
            old(self).wf() ==> final(self).wf(),
            final(self).spec_find(owner@) matches Some(slot) && slot.owner@ == owner@
                && slot.entry.accounts@ == accounts@ && slot.entry.ts == (match old(
                self,
            ).spec_find(owner@) {
                Some(o) => if o.entry.ts >= now_ms {
                    o.entry.ts
                } else {
                    now_ms
                },
                None => now_ms,
            }),
            forall|o: Seq<u8>|
                o != owner@ ==> #[trigger] final(self).spec_find(o) == old(self).spec_find(o),
    {
        let found: Option<usize> = self.find_index(owner);
        match found {
            Some(i) => {
                let old_ts: u64 = self.slots[i].entry.ts;
                let ts: u64 = if old_ts >= now_ms {
                    old_ts
                } else {
                    now_ms
                };
                let slot = CacheSlot { owner: *owner, entry: OpenOrdersCacheEntry { accounts, ts } };
                let ghost old_slots = self.slots@;
                let ghost new_slot = slot;
                self.slots[i] = slot;
                proof {
                    assert(self.slots@ =~= old_slots.update(i as int, new_slot));
                    lemma_find_slot_skip(self.slots@, owner@, i as int);
                    assert(self.slots@.subrange(i as int, self.slots@.len() as int)[0]
                        == self.slots@[i as int]);
                    assert forall|o: Seq<u8>| o != owner@ implies #[trigger] find_slot(
                        self.slots@,
                        o,
                    ) == find_slot(old_slots, o) by {
                        lemma_find_slot_update_other(old_slots, i as int, new_slot, o);
                    }
                }
            },
            None => {
                let slot = CacheSlot {
                    owner: *owner,
                    entry: OpenOrdersCacheEntry { accounts, ts: now_ms },
                };
                let ghost old_slots = self.slots@;
                let ghost new_slot = slot;
                proof {
                    lemma_find_slot_none(old_slots, owner@);
                }
                self.slots.push(slot);
                proof {
                    assert(self.slots@ =~= old_slots.push(new_slot));
                    lemma_find_slot_skip(self.slots@, owner@, old_slots.len() as int);
                    assert(self.slots@.subrange(
                        old_slots.len() as int,
                        self.slots@.len() as int,
                    )[0] == new_slot);
                    assert forall|o: Seq<u8>| o != owner@ implies #[trigger] find_slot(
                        self.slots@,
                        o,
                    ) == find_slot(old_slots, o) by {
                        lemma_find_slot_push_other(old_slots, new_slot, o);
                    }
                }
            },
        }
    }
}

/// What a cache consultation decided: serve the cached addresses, or tell
/// the caller to refresh from the remote ledger.
#[derive(Debug)]
pub enum CacheLookup {
    /// A fresh entry was found; no remote call is needed.
    Hit(Vec<Address>),
    /// No fresh entry; the caller must perform the remote lookup and
    /// record what it finds.
    Miss,
}

} // verus!
