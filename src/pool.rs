//! The pool of pending transactions, ordered by gas price.
use vstd::prelude::*;

use sorted_vec::SortedVec;

use crate::transaction::{tx_valid, Transaction};

verus! {

#[verifier::external_type_specification]
#[verifier::external_body]
#[verifier::reject_recursive_types(T)]
pub struct ExSortedVec<T: Ord>(SortedVec<T>);

/// The items of a sorted vector of keys, in their order.
pub uninterp spec fn sorted_items(v: SortedVec<(u64, u64)>) -> Seq<(u64, u64)>;

/// The order of `Ord` on pairs: by the first component, then the second.
pub open spec fn key_le(a: (u64, u64), b: (u64, u64)) -> bool {
    a.0 < b.0 || (a.0 == b.0 && a.1 <= b.1)
}

pub open spec fn keys_sorted(s: Seq<(u64, u64)>) -> bool {
    forall|i: int, j: int| 0 <= i <= j < s.len() ==> key_le(#[trigger] s[i], #[trigger] s[j])
}

/// Relies on SortedVec::new: an empty vector.
#[verifier::external_body]
fn keys_new() -> (r: SortedVec<(u64, u64)>)
    ensures
        sorted_items(r) == Seq::<(u64, u64)>::empty(),
{
    SortedVec::new()
}

/// Relies on SortedVec::insert: the key goes in at a place that keeps the items
/// sorted, and that place is returned.
#[verifier::external_body]
fn keys_insert(v: &mut SortedVec<(u64, u64)>, key: (u64, u64)) -> (r: usize)
    ensures
        r <= sorted_items(*old(v)).len(),
        keys_sorted(sorted_items(*old(v))) ==> keys_sorted(sorted_items(*final(v))),
        sorted_items(*final(v)) == sorted_items(*old(v)).insert(r as int, key),
{
    v.insert(key)
}

/// Relies on SortedVec::pop: removes and returns the last (largest) item.
#[verifier::external_body]
fn keys_pop(v: &mut SortedVec<(u64, u64)>) -> (r: Option<(u64, u64)>)
    ensures
        sorted_items(*old(v)).len() == 0 ==> r is None && sorted_items(*final(v)) == sorted_items(
            *old(v),
        ),
        sorted_items(*old(v)).len() > 0 ==> r == Some(sorted_items(*old(v)).last())
            && sorted_items(*final(v)) == sorted_items(*old(v)).drop_last(),
{
    v.pop()
}

/// Relies on SortedVec::remove_index: removes the item at `index`.
#[verifier::external_body]
fn keys_remove_index(v: &mut SortedVec<(u64, u64)>, index: usize) -> (r: (u64, u64))
    requires
        index < sorted_items(*old(v)).len(),
    ensures
        r == sorted_items(*old(v))[index as int],
        sorted_items(*final(v)) == sorted_items(*old(v)).remove(index as int),
{
    v.remove_index(index)
}

/// Transactions listed from the lowest gas price to the highest.
pub open spec fn gas_sorted(s: Seq<Transaction>) -> bool {
    forall|i: int, j: int| 0 <= i <= j < s.len() ==> (#[trigger] s[i]).gas_price <= (#[trigger] s[j]).gas_price
}

/// Pending transactions. `txs` lists them in the order of their keys
/// (gas price, then a ticket that falls with each insertion).
pub struct TransactionPool {
    keys: SortedVec<(u64, u64)>,
    txs: Vec<Transaction>,
    next_ticket: u64,
}

impl TransactionPool {
    /// The pool's transactions, from the lowest priority to the highest.
    pub closed spec fn view(&self) -> Seq<Transaction> {
        self.txs@
    }

    pub closed spec fn wf(&self) -> bool {
        let k = sorted_items(self.keys);
        &&& keys_sorted(k)
        &&& k.len() == self.txs@.len()
        &&& forall|i: int| 0 <= i < k.len() ==> (#[trigger] k[i]).0 == self.txs@[i].gas_price
    }

    /// A well-formed pool lists its transactions by ascending gas price.
    pub proof fn lemma_sorted(&self)
        requires
            self.wf(),
        ensures
            gas_sorted(self@),
    {
        let k = sorted_items(self.keys);
        assert forall|i: int, j: int| 0 <= i <= j < self@.len() implies (#[trigger] self@[i]).gas_price
            <= (#[trigger] self@[j]).gas_price by {
            assert(key_le(k[i], k[j]));
        }
    }

    pub fn new() -> (r: TransactionPool)
        ensures
            r.wf(),
            r@ == Seq::<Transaction>::empty(),
    {
        TransactionPool { keys: keys_new(), txs: Vec::new(), next_ticket: u64::MAX }
    }

    /// Adds `transaction` if it is valid; drops it silently otherwise.
    pub fn add_transaction(&mut self, transaction: Transaction)
        requires
            old(self).wf(),
        ensures
            final(self).wf(),
            tx_valid(transaction) ==> exists|i: int|
                0 <= i <= old(self)@.len() && final(self)@ == old(self)@.insert(i, transaction),
            !tx_valid(transaction) ==> final(self)@ == old(self)@,
    {
        if !transaction.validate() {
            return;
        }
        let ghost k0 = sorted_items(self.keys);
        let ticket = self.next_ticket;
        self.next_ticket = if ticket > 0 { ticket - 1 } else { 0 };
        let at = keys_insert(&mut self.keys, (transaction.gas_price, ticket));
        let ghost t = transaction;
        self.txs.insert(at, transaction);
        proof {
            let k = sorted_items(self.keys);
            assert forall|i: int| 0 <= i < k.len() implies (#[trigger] k[i]).0
                == self.txs@[i].gas_price by {
                if i < at {
                    assert(k[i] == k0[i]);
                } else if i > at {
                    assert(k[i] == k0[i - 1]);
                }
            }
            assert(self.txs@ == old(self)@.insert(at as int, t));
        }
    }

    /// Removes the first pooled transaction whose hash is that of `transaction`,
    /// if there is one.
    pub fn remove_transaction(&mut self, transaction: &Transaction)
        requires
            old(self).wf(),
        ensures
            final(self).wf(),
            (forall|i: int| 0 <= i < old(self)@.len() ==> (#[trigger] old(self)@[i]).hash@
                != transaction.hash@) ==> final(self)@ == old(self)@,
            (exists|i: int| 0 <= i < old(self)@.len() && (#[trigger] old(self)@[i]).hash@
                == transaction.hash@) ==> exists|i: int|
                0 <= i < old(self)@.len() && (#[trigger] old(self)@[i]).hash@ == transaction.hash@
                    && (forall|j: int| 0 <= j < i ==> (#[trigger] old(self)@[j]).hash@
                    != transaction.hash@) && final(self)@ == old(self)@.remove(i),
    {
        let mut i: usize = 0;
        while i < self.txs.len()
            invariant
                self == old(self),
                self.wf(),
                i <= self@.len(),
                forall|j: int| 0 <= j < i ==> (#[trigger] self@[j]).hash@ != transaction.hash@,
            decreases self@.len() - i,
        {
            if crate::keys::bytes_eq(&self.txs[i].hash, &transaction.hash) {
                let ghost k0 = sorted_items(self.keys);
                let _ = keys_remove_index(&mut self.keys, i);
                let _ = self.txs.remove(i);
                proof {
                    let k = sorted_items(self.keys);
                    assert forall|a: int, b: int| 0 <= a <= b < k.len() implies key_le(
                        #[trigger] k[a],
                        #[trigger] k[b],
                    ) by {
                        let a0 = if a < i { a } else { a + 1 };
                        let b0 = if b < i { b } else { b + 1 };
                        assert(k[a] == k0[a0] && k[b] == k0[b0]);
                    }
                    assert forall|a: int| 0 <= a < k.len() implies (#[trigger] k[a]).0
                        == self.txs@[a].gas_price by {
                        let a0 = if a < i { a } else { a + 1 };
                        assert(k[a] == k0[a0]);
                    }
                    assert(old(self)@[i as int].hash@ == transaction.hash@);
                }
                return;
            }
            i = i + 1;
        }
    }

    /// The number of pooled transactions.
    pub fn tx_count(&self) -> (r: usize)
        ensures
            r == self@.len(),
    {
        self.txs.len()
    }

    /// Removes and returns a transaction of the highest gas price, the earliest
    /// added among equals.
    pub fn get_top_transaction(&mut self) -> (r: Option<Transaction>)
        requires
            old(self).wf(),
        ensures
            final(self).wf(),
            old(self)@.len() == 0 ==> r is None && final(self)@ == old(self)@,
            old(self)@.len() > 0 ==> r == Some(old(self)@.last()) && final(self)@ == old(
                self,
            )@.drop_last(),
            r matches Some(tx) ==> forall|i: int|
                0 <= i < old(self)@.len() ==> (#[trigger] old(self)@[i]).gas_price <= tx.gas_price,
    {
        let ghost k0 = sorted_items(self.keys);
        let _ = keys_pop(&mut self.keys);
        let r = self.txs.pop();
        proof {
            if k0.len() > 0 {
                assert forall|i: int| 0 <= i < old(self)@.len() implies (#[trigger] old(
                    self,
                )@[i]).gas_price <= old(self)@.last().gas_price by {
                    assert(key_le(k0[i], k0[k0.len() - 1]));
                }
            }
        }
        r
    }

    /// Removes and returns up to `count` transactions, highest gas price first.
    pub fn get_transactions(&mut self, count: usize) -> (r: Vec<Transaction>)
        requires
            old(self).wf(),
        ensures
            final(self).wf(),
            r@.len() == if count <= old(self)@.len() { count as int } else { old(self)@.len() as int },
            final(self)@ == old(self)@.take(old(self)@.len() - r@.len()),
            forall|k: int| 0 <= k < r@.len() ==> #[trigger] r@[k] == old(self)@[old(self)@.len() - 1 - k],
            forall|k: int, l: int| 0 <= k <= l < r@.len() ==> (#[trigger] r@[k]).gas_price >= (#[trigger] r@[l]).gas_price,
            forall|i: int, k: int| 0 <= i < final(self)@.len() && 0 <= k < r@.len() ==> (#[trigger] final(self)@[i]).gas_price <= (#[trigger] r@[k]).gas_price,
    {
        proof {
            old(self).lemma_sorted();
        }
        let mut out: Vec<Transaction> = Vec::new();
        while out.len() < count && self.txs.len() > 0
            invariant
                self.wf(),
                out@.len() <= count,
                out@.len() <= old(self)@.len(),
                self@ == old(self)@.take(old(self)@.len() - out@.len()),
                forall|k: int| 0 <= k < out@.len() ==> #[trigger] out@[k] == old(self)@[old(self)@.len() - 1 - k],
            decreases count - out@.len(),
        {
            match self.get_top_transaction() {
                None => {},
                Some(tx) => {
                    out.push(tx);
                    assert(self@ =~= old(self)@.take(old(self)@.len() - out@.len()));
                }
            }
        }
        proof {
            let o = old(self)@;
            let n = o.len();
            assert forall|k: int, l: int| 0 <= k <= l < out@.len() implies (#[trigger] out@[k]).gas_price >= (#[trigger] out@[l]).gas_price by {
                assert(out@[k] == o[n - 1 - k] && out@[l] == o[n - 1 - l]);
            }
            assert forall|i: int, k: int| 0 <= i < self@.len() && 0 <= k < out@.len() implies (#[trigger] self@[i]).gas_price <= (#[trigger] out@[k]).gas_price by {
                assert(self@[i] == o[i] && out@[k] == o[n - 1 - k]);
            }
        }
        out
    }
}

} // verus!
