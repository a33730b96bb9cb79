//! The exchange's on-chain order-book tree, decoded into plain values.
//!
//! On the ledger a book side is a critical-bit tree laid out as an array of
//! 72-byte node slots behind the account framing, an 8-byte flag word and a
//! 32-byte tree header.  A resting order is a leaf slot (tag 2) holding a
//! 128-bit key -- whose upper 64 bits are the price in raw ticks -- and the
//! 32-byte address of its open-orders account.  The tree links only order
//! the removals by key; the decoder collects the leaf slots and the
//! extractor reproduces the key order, so the tree pointers themselves are
//! not read.

use vstd::prelude::*;

use crate::address::{read_address, Address};
use crate::error::MarketError;
use crate::framing::{check_padding, padding_ok};
use vstd::multiset::Multiset;

use crate::little_endian::{
    bytes_at, le_u128_at, le_u32_at, le_u64_at, lemma_le_nat_bound, lemma_pow256_values,
    read_u128_le, read_u32_le, read_u64_le,
};

verus! {

/// Flag word of a bid-side book account: initialized, bids.
pub const BIDS_ACCOUNT_FLAGS: u64 = 33;

/// Flag word of an ask-side book account: initialized, asks.
pub const ASKS_ACCOUNT_FLAGS: u64 = 65;

/// One resting order read out of a book account.
#[derive(Clone, Copy, Debug)]
pub struct LeafOrder {
    /// The 128-bit order identifier; the upper 64 bits are the price.
    pub key: u128,
    /// The open-orders account that owns the resting order.
    pub owner: Address,
}

/// The mathematical value of a resting order.
#[verifier::ext_equal]
pub struct LeafView {
    pub key: u128,
    pub owner: Seq<u8>,
}

impl View for LeafOrder {
    type V = LeafView;

    open spec fn view(&self) -> LeafView {
        LeafView { key: self.key, owner: self.owner@ }
    }
}

/// The price in raw ticks carried in the upper 64 bits of an order key.
pub open spec fn price_of_key(key: u128) -> u64 {
    (key >> 64) as u64
}

/// Price of an order key, as executable code.
pub fn price_of(key: u128) -> (r: u64)
    ensures
        r == price_of_key(key),
{
    (key >> 64) as u64
}

/// Byte offset of node slot `i` inside a book account.
pub open spec fn node_off(i: int) -> int {
    45 + 72 * i
}

/// How many whole node slots the buffer holds; spare bytes are ignored,
/// as the on-chain reader ignores them.
pub open spec fn node_count(data: Seq<u8>) -> int {
    (data.len() - 52) / 72
}

/// The tag of node slot `i`: 2 marks a leaf.
pub open spec fn node_tag(data: Seq<u8>, i: int) -> nat {
    le_u32_at(data, node_off(i))
}

/// The resting order held in node slot `i`.
pub open spec fn leaf_view_at(data: Seq<u8>, i: int) -> LeafView {
    LeafView {
        key: le_u128_at(data, node_off(i) + 8) as u128,
        owner: bytes_at(data, node_off(i) + 24, 32),
    }
}

/// The resting orders of the first `n` node slots, in slot order.
pub open spec fn book_leaves_upto(data: Seq<u8>, n: int) -> Seq<LeafView>
    decreases n,
{
    if n <= 0 {
        Seq::empty()
    } else if node_tag(data, n - 1) == 2 {
        book_leaves_upto(data, n - 1).push(leaf_view_at(data, n - 1))
    } else {
        book_leaves_upto(data, n - 1)
    }
}

/// Every resting order of the buffer, in slot order.
pub open spec fn book_leaves(data: Seq<u8>) -> Seq<LeafView> {
    book_leaves_upto(data, node_count(data))
}

/// A shorter slot prefix lists a prefix of the resting orders.
proof fn lemma_book_leaves_prefix(data: Seq<u8>, m: int, n: int)
    requires
        0 <= m <= n,
    ensures
        book_leaves_upto(data, m).is_prefix_of(book_leaves_upto(data, n)),
    decreases n - m,
{
    if m < n {
        lemma_book_leaves_prefix(data, m, n - 1);
    }
}

/// A book account is well formed when it is framed, sized to whole 8-byte
/// words, carries the flag word of its role, agrees with its header's leaf
/// count, and holds no zero-price order.
pub open spec fn slab_well_formed(data: Seq<u8>, expected_flags: u64) -> bool {
    &&& padding_ok(data)
    &&& (data.len() - 12) % 8 == 0
    &&& data.len() >= 52
    &&& le_u64_at(data, 5) == expected_flags
    &&& book_leaves(data).len() == le_u64_at(data, 37)
    &&& forall|i: int|
        0 <= i < book_leaves(data).len() ==> price_of_key(
            #[trigger] book_leaves(data)[i].key,
        ) != 0
}

/// The error a malformed book account decodes to.
pub open spec fn slab_decode_error(data: Seq<u8>, expected_flags: u64) -> MarketError {
    if data.len() < 12 {
        MarketError::WrongDataLength
    } else if !padding_ok(data) {
        MarketError::BadPadding
    } else if (data.len() - 12) % 8 != 0 || data.len() < 52 {
        MarketError::WrongDataLength
    } else if le_u64_at(data, 5) != expected_flags {
        MarketError::BadAccountFlags
    } else {
        MarketError::MalformedOrderBook
    }
}

/// One side of the order book, decoded into owned values.
#[derive(Debug)]
pub struct OrderBookSide {
    pub leaves: Vec<LeafOrder>,
}

impl View for OrderBookSide {
    type V = Seq<LeafView>;

    open spec fn view(&self) -> Seq<LeafView> {
        self.leaves@.map_values(|l: LeafOrder| l@)
    }
}

impl OrderBookSide {
    /// Every resting order held has a non-zero price.
    pub open spec fn wf(self) -> bool {
        forall|i: int| 0 <= i < self@.len() ==> price_of_key(#[trigger] self@[i].key) != 0
    }

    /// How many resting orders the side holds.
    pub fn len(&self) -> (r: usize)
        ensures
            r == self@.len(),
    {
        self.leaves.len()
    }

    /// Decodes a book account buffer into one side of the order book.
    ///
    /// Succeeds exactly on well-formed buffers and never panics; a buffer
    /// whose node region would not fit is reported as a length error where
    /// the on-chain reader would abort.
    pub fn decode(data: &Vec<u8>, expected_flags: u64) -> (r: Result<OrderBookSide, MarketError>)
        ensures
            r is Ok <==> slab_well_formed(data@, expected_flags),
            r matches Ok(b) ==> b@ == book_leaves(data@) && b.wf(),
            r matches Err(e) ==> e == slab_decode_error(data@, expected_flags),
    {
        let len: usize = data.len();
        if len < 12 {
            return Err(MarketError::WrongDataLength);
        }
        if !check_padding(data) {
            return Err(MarketError::BadPadding);
        }
        if (len - 12) % 8 != 0 || len < 52 {
            return Err(MarketError::WrongDataLength);
        }
        let flags: u64 = read_u64_le(data, 5);
        if flags != expected_flags {
            return Err(MarketError::BadAccountFlags);
        }
        let header_leaf_count: u64 = read_u64_le(data, 37);
        let nc: usize = (len - 52) / 72;
        let mut leaves: Vec<LeafOrder> = Vec::new();
        let mut i: usize = 0;
        while i < nc
            invariant
                data@.len() == len,
                len >= 52,
                padding_ok(data@),
                (len - 12) % 8 == 0,
                le_u64_at(data@, 5) == expected_flags,
                header_leaf_count as nat == le_u64_at(data@, 37),
                nc == node_count(data@),
                0 <= i <= nc,
                leaves@.map_values(|l: LeafOrder| l@) == book_leaves_upto(data@, i as int),
                forall|j: int|
                    0 <= j < leaves@.len() ==> price_of_key(#[trigger] leaves@[j]@.key) != 0,
            decreases nc - i,
        {
            proof {
                assert(72 * nc <= len - 52) by (nonlinear_arith)
                    requires
                        nc == (len - 52) / 72,
                        len >= 52,
                ;
                assert(72 * i + 72 <= 72 * nc) by (nonlinear_arith)
                    requires
                        i < nc,
                ;
            }
            let off: usize = 45 + 72 * i;
            let tag: u32 = read_u32_le(data, off);
            let ghost prev = leaves@.map_values(|l: LeafOrder| l@);
            if tag == 2 {
                let key: u128 = read_u128_le(data, off + 8);
                proof {
                    lemma_le_nat_bound(data@.subrange(off + 8, off + 24));
                    lemma_pow256_values();
                }
                let price: u64 = price_of(key);
                if price == 0 {
                    proof {
                        lemma_book_leaves_prefix(data@, i as int + 1, node_count(data@));
                        let w = book_leaves_upto(data@, i as int).len() as int;
                        let pre = book_leaves_upto(data@, i as int + 1);
                        assert(pre == book_leaves_upto(data@, i as int).push(
                            leaf_view_at(data@, i as int),
                        ));
                        assert(book_leaves(data@).subrange(0, pre.len() as int) == pre);
                        assert(book_leaves(data@)[w] == pre[w]);
                        assert(price_of_key(book_leaves(data@)[w].key) == 0);
                    }
                    return Err(MarketError::MalformedOrderBook);
                }
                let owner: Address = read_address(data, off + 24);
                leaves.push(LeafOrder { key, owner });
                proof {
                    assert(leaves@.map_values(|l: LeafOrder| l@) =~= prev.push(
                        leaf_view_at(data@, i as int),
                    ));
                }
            }
            proof {
                assert(leaves@.map_values(|l: LeafOrder| l@) =~= book_leaves_upto(
                    data@,
                    i as int + 1,
                ));
            }
            i = i + 1;
        }
        if (leaves.len() as u64) != header_leaf_count {
            return Err(MarketError::MalformedOrderBook);
        }
        Ok(OrderBookSide { leaves })
    }

    /// Removes and returns a resting order with the least key, the way the
    /// on-chain reader drains the ask side.
    pub fn remove_min(&mut self) -> (r: Option<LeafOrder>)
        ensures
            old(self)@.len() == 0 ==> r is None && final(self)@ == old(self)@,
            old(self)@.len() > 0 ==> r is Some,
            r matches Some(l) ==> exists|i: int|
                0 <= i < old(self)@.len() && l@ == old(self)@[i] && final(self)@ == old(
                    self,
                )@.remove(i),
            r matches Some(l) ==> forall|j: int|
                0 <= j < old(self)@.len() ==> l@.key <= #[trigger] old(self)@[j].key,
    {
        let n: usize = self.leaves.len();
        if n == 0 {
            return None;
        }
        let mut best: usize = 0;
        let mut k: usize = 1;
        while k < n
            invariant
                n == self.leaves@.len(),
                0 <= best < k <= n,
                forall|j: int|
                    0 <= j < k ==> self.leaves@[best as int].key <= #[trigger] self.leaves@[j].key,
            decreases n - k,
        {
            if self.leaves[k].key < self.leaves[best].key {
                best = k;
            }
            k = k + 1;
        }
        let l: LeafOrder = self.leaves.remove(best);
        proof {
            assert(final(self)@ =~= old(self)@.remove(best as int));
            assert(l@ == old(self)@[best as int]);
        }
        Some(l)
    }

    /// Removes and returns a resting order with the greatest key, the way
    /// the on-chain reader takes the top of the bid side.
    pub fn remove_max(&mut self) -> (r: Option<LeafOrder>)
        ensures
            old(self)@.len() == 0 ==> r is None && final(self)@ == old(self)@,
            old(self)@.len() > 0 ==> r is Some,
            r matches Some(l) ==> exists|i: int|
                0 <= i < old(self)@.len() && l@ == old(self)@[i] && final(self)@ == old(
                    self,
                )@.remove(i),
            r matches Some(l) ==> forall|j: int|
                0 <= j < old(self)@.len() ==> l@.key >= #[trigger] old(self)@[j].key,
    {
        let n: usize = self.leaves.len();
        if n == 0 {
            return None;
        }
        let mut best: usize = 0;
        let mut k: usize = 1;
        while k < n
            invariant
                n == self.leaves@.len(),
                0 <= best < k <= n,
                forall|j: int|
                    0 <= j < k ==> self.leaves@[best as int].key >= #[trigger] self.leaves@[j].key,
            decreases n - k,
        {
            if self.leaves[k].key > self.leaves[best].key {
                best = k;
            }
            k = k + 1;
        }
        let l: LeafOrder = self.leaves.remove(best);
        proof {
            assert(final(self)@ =~= old(self)@.remove(best as int));
            assert(l@ == old(self)@[best as int]);
        }
        Some(l)
    }
}

/// The least order key on a side.
pub open spec fn min_key(s: Seq<LeafView>) -> u128
    recommends
        s.len() > 0,
    decreases s.len(),
{
    if s.len() <= 1 {
        s[0].key
    } else {
        let m = min_key(s.drop_first());
        if s[0].key <= m {
            s[0].key
        } else {
            m
        }
    }
}

/// The greatest order key on a side.
pub open spec fn max_key(s: Seq<LeafView>) -> u128
    recommends
        s.len() > 0,
    decreases s.len(),
{
    if s.len() <= 1 {
        s[0].key
    } else {
        let m = max_key(s.drop_first());
        if s[0].key >= m {
            s[0].key
        } else {
            m
        }
    }
}

/// The least key is held by some order and bounds every key from below.
pub proof fn lemma_min_key(s: Seq<LeafView>)
    requires
        s.len() > 0,
    ensures
        exists|i: int| 0 <= i < s.len() && s[i].key == min_key(s),
        forall|i: int| 0 <= i < s.len() ==> min_key(s) <= #[trigger] s[i].key,
    decreases s.len(),
{
    if s.len() == 1 {
        assert(s[0].key == min_key(s));
    } else {
        lemma_min_key(s.drop_first());
        let j = choose|j: int|
            0 <= j < s.drop_first().len() && s.drop_first()[j].key == min_key(s.drop_first());
        assert(s[j + 1].key == min_key(s.drop_first()));
        assert(forall|i: int| 1 <= i < s.len() ==> s.drop_first()[i - 1] == #[trigger] s[i]);
        if s[0].key <= min_key(s.drop_first()) {
            assert(s[0].key == min_key(s));
        } else {
            assert(s[j + 1].key == min_key(s));
        }
    }
}

/// The greatest key is held by some order and bounds every key from above.
pub proof fn lemma_max_key(s: Seq<LeafView>)
    requires
        s.len() > 0,
    ensures
        exists|i: int| 0 <= i < s.len() && s[i].key == max_key(s),
        forall|i: int| 0 <= i < s.len() ==> max_key(s) >= #[trigger] s[i].key,
    decreases s.len(),
{
    if s.len() == 1 {
        assert(s[0].key == max_key(s));
    } else {
        lemma_max_key(s.drop_first());
        let j = choose|j: int|
            0 <= j < s.drop_first().len() && s.drop_first()[j].key == max_key(s.drop_first());
        assert(s[j + 1].key == max_key(s.drop_first()));
        assert(forall|i: int| 1 <= i < s.len() ==> s.drop_first()[i - 1] == #[trigger] s[i]);
        if s[0].key >= max_key(s.drop_first()) {
            assert(s[0].key == max_key(s));
        } else {
            assert(s[j + 1].key == max_key(s));
        }
    }
}

/// Keys listed low to high.
pub open spec fn keys_ascending(s: Seq<u128>) -> bool {
    forall|i: int, j: int| 0 <= i < j < s.len() ==> s[i] <= s[j]
}

/// The key of one resting order.
pub open spec fn leaf_key_fn() -> spec_fn(LeafView) -> u128 {
    |l: LeafView| l.key
}

/// The order keys of a side, slot by slot.
pub open spec fn keys_of(s: Seq<LeafView>) -> Seq<u128> {
    s.map_values(leaf_key_fn())
}

/// Belonging to the caller's open-orders account.
pub open spec fn owned_by(me: Seq<u8>) -> spec_fn(LeafView) -> bool {
    |l: LeafView| l.owner == me
}

/// The resting orders owned by the caller's open-orders account.
pub open spec fn owned_leaves(s: Seq<LeafView>, me: Seq<u8>) -> Seq<LeafView> {
    s.filter(owned_by(me))
}

/// Filtering past an appended element keeps or drops exactly that element.
pub proof fn lemma_filter_push<A>(s: Seq<A>, p: spec_fn(A) -> bool, x: A)
    ensures
        s.push(x).filter(p) == (if p(x) {
            s.filter(p).push(x)
        } else {
            s.filter(p)
        }),
{
    reveal(Seq::filter);
    assert(s.push(x).drop_last() =~= s);
    assert(s.push(x).last() == x);
}

/// Removing one element removes exactly its contribution to a filter.
pub proof fn lemma_filter_remove<A>(s: Seq<A>, p: spec_fn(A) -> bool, i: int)
    requires
        0 <= i < s.len(),
    ensures
        p(s[i]) ==> s.filter(p).to_multiset() == s.remove(i).filter(p).to_multiset().insert(s[i]),
        !p(s[i]) ==> s.filter(p).to_multiset() == s.remove(i).filter(p).to_multiset(),
{
    broadcast use vstd::seq_lib::group_to_multiset_ensures;

    let a = s.subrange(0, i);
    let m = seq![s[i]];
    let b = s.subrange(i + 1, s.len() as int);
    assert(s =~= (a + m) + b);
    assert(s.remove(i) =~= a + b);
    Seq::filter_distributes_over_add(a + m, b, p);
    Seq::filter_distributes_over_add(a, m, p);
    Seq::filter_distributes_over_add(a, b, p);
    assert(m.filter(p) == (if p(s[i]) {
        m
    } else {
        Seq::<A>::empty()
    })) by {
        reveal(Seq::filter);
        assert(m.drop_last() =~= Seq::<A>::empty());
        assert(Seq::<A>::empty().filter(p).len() == 0);
        if p(s[i]) {
            assert(m.filter(p) =~= m);
        } else {
            assert(m.filter(p) =~= Seq::<A>::empty());
        }
    }
    vstd::seq_lib::lemma_multiset_commutative(a.filter(p) + m.filter(p), b.filter(p));
    vstd::seq_lib::lemma_multiset_commutative(a.filter(p), m.filter(p));
    vstd::seq_lib::lemma_multiset_commutative(a.filter(p), b.filter(p));
    if p(s[i]) {
        assert(m.filter(p).to_multiset() =~= Multiset::<A>::empty().insert(s[i]));
        assert(s.filter(p).to_multiset() =~= s.remove(i).filter(p).to_multiset().insert(s[i]));
    } else {
        assert(m.filter(p).to_multiset() =~= Multiset::<A>::empty());
        assert(s.filter(p).to_multiset() =~= s.remove(i).filter(p).to_multiset());
    }
}

/// Rearranging a sequence rearranges its image: equal multisets map to
/// equal multisets.
pub proof fn lemma_map_values_multiset<A, B>(s: Seq<A>, t: Seq<A>, f: spec_fn(A) -> B)
    requires
        s.to_multiset() == t.to_multiset(),
    ensures
        s.map_values(f).to_multiset() == t.map_values(f).to_multiset(),
    decreases s.len(),
{
    broadcast use vstd::seq_lib::group_to_multiset_ensures;
    broadcast use vstd::multiset::group_multiset_axioms;

    if s.len() == 0 {
        assert(s.to_multiset().len() == 0);
        assert(t.len() == 0);
        assert(s.map_values(f).to_multiset().len() == 0);
        assert(t.map_values(f).to_multiset().len() == 0);
        assert(s.map_values(f).to_multiset() =~= t.map_values(f).to_multiset());
    } else {
        let x = s.last();
        assert(s.contains(x));
        assert(s.to_multiset().count(x) > 0);
        assert(t.contains(x));
        let j = choose|j: int| 0 <= j < t.len() && t[j] == x;
        assert(s.drop_last().push(x) =~= s);
        assert(s.to_multiset() == s.drop_last().to_multiset().insert(x));
        assert(t.remove(j).to_multiset() =~= t.to_multiset().remove(x));
        assert(s.drop_last().to_multiset() =~= t.remove(j).to_multiset());
        lemma_map_values_multiset(s.drop_last(), t.remove(j), f);
        assert(s.map_values(f) =~= s.drop_last().map_values(f).push(f(x)));
        assert(t.remove(j).map_values(f) =~= t.map_values(f).remove(j));
        assert(s.map_values(f).to_multiset() == s.drop_last().map_values(f).to_multiset().insert(
            f(x),
        ));
        assert(t.map_values(f).remove(j).to_multiset() =~= t.map_values(f).to_multiset().remove(
            f(x),
        ));
        assert(s.map_values(f).to_multiset() =~= t.map_values(f).to_multiset());
    }
}

/// What a full ask-side walk returns: exactly the ids of the caller's
/// resting orders with their tick prices, keys ascending, and the price
/// of the least key as the floor -- 0 only when the side is empty.
pub open spec fn asks_outputs_ok(
    ids: Seq<u128>,
    prices: Seq<u64>,
    floor_px: u64,
    book: Seq<LeafView>,
    me: Seq<u8>,
) -> bool {
    &&& ids.len() == owned_leaves(book, me).len()
    &&& ids.to_multiset() == keys_of(owned_leaves(book, me)).to_multiset()
    &&& keys_ascending(ids)
    &&& prices.len() == ids.len()
    &&& forall|i: int| 0 <= i < ids.len() ==> prices[i] == price_of_key(#[trigger] ids[i])
    &&& floor_px == (if book.len() == 0 {
        0u64
    } else {
        price_of_key(min_key(book))
    })
}

/// What the top-of-book bid pass returns: the price of the greatest key --
/// 0 only when the side is empty -- and the id and tick price of that one
/// top order exactly when the caller owns it.  The walk stops after the
/// best bid; it is not a full scan.
pub open spec fn bids_outputs_ok(
    ids: Seq<u128>,
    prices: Seq<u64>,
    top_px: u64,
    book: Seq<LeafView>,
    me: Seq<u8>,
) -> bool {
    &&& top_px == (if book.len() == 0 {
        0u64
    } else {
        price_of_key(max_key(book))
    })
    &&& if book.len() == 0 {
        ids.len() == 0 && prices.len() == 0
    } else {
        exists|i: int|
            #![auto]
            0 <= i < book.len() && book[i].key == max_key(book) && if book[i].owner == me {
                ids == seq![book[i].key] && prices == seq![price_of_key(book[i].key)]
            } else {
                ids.len() == 0 && prices.len() == 0
            }
    }
}

} // verus!
