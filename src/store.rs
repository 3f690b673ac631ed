//! The node's tables: decided values and their certificates, undecided
//! proposals, and block bytes, decided or not.
use vstd::prelude::*;

use crate::height::{Height, Round};
use crate::proposal::{
    same_certificate, same_proposed, CommitCertificate, DecidedValue, ProposedValue,
};
use crate::table::{Table, TableKey};
use crate::value::Value;

verus! {

/// The key of a table indexed by height alone.
pub open spec fn height_key(h: u64) -> TableKey {
    TableKey { height: h, round: Round::Nil }
}

/// The key of a table indexed by height and round.
pub open spec fn round_key(h: u64, r: Round) -> TableKey {
    TableKey { height: h, round: r }
}

fn key_of_height(h: Height) -> (r: TableKey)
    ensures
        r == height_key(h.0),
{
    TableKey { height: h.0, round: Round::Nil }
}

fn key_of_round(h: Height, r: Round) -> (k: TableKey)
    ensures
        k == round_key(h.0, r),
{
    TableKey { height: h.0, round: r }
}

/// Some listed height is `h`.
pub open spec fn lists_height(hs: Seq<Height>, h: u64) -> bool {
    exists|i: int| 0 <= i < hs.len() && (#[trigger] hs[i]).0 == h
}

/// Some key has height `h`.
pub open spec fn has_height(keys: Seq<TableKey>, h: u64) -> bool {
    exists|j: int| 0 <= j < keys.len() && (#[trigger] keys[j]).height == h
}

/// The heights of some keys with distinct heights, in ascending order.
fn heights_ascending(keys: Vec<TableKey>) -> (r: Vec<Height>)
    requires
        forall|i: int, j: int| 0 <= i < j < keys@.len() ==> (#[trigger] keys@[i]).height != (#[trigger] keys@[j]).height,
    ensures
        forall|i: int, j: int| 0 <= i < j < r@.len() ==> (#[trigger] r@[i]).0 < (#[trigger] r@[j]).0,
        forall|h: u64| #[trigger] lists_height(r@, h) <==> has_height(keys@, h),
{
    let ghost orig = keys@;
    let mut rem = keys;
    let mut out: Vec<Height> = Vec::new();
    while rem.len() > 0
        invariant
            forall|i: int, j: int| 0 <= i < j < rem@.len() ==> (#[trigger] rem@[i]).height != (#[trigger] rem@[j]).height,
            forall|i: int, j: int| 0 <= i < j < out@.len() ==> (#[trigger] out@[i]).0 < (#[trigger] out@[j]).0,
            forall|i: int, j: int| 0 <= i < out@.len() && 0 <= j < rem@.len() ==> (#[trigger] out@[i]).0 < (#[trigger] rem@[j]).height,
            forall|h: u64| (#[trigger] lists_height(out@, h) || has_height(rem@, h)) <==> has_height(orig, h),
        decreases rem@.len(),
    {
        let mut m: usize = 0;
        let mut i: usize = 1;
        while i < rem.len()
            invariant
                m < i <= rem@.len(),
                forall|j: int| 0 <= j < i ==> rem@[m as int].height <= (#[trigger] rem@[j]).height,
            decreases rem@.len() - i,
        {
            if rem[i].height < rem[m].height {
                m = i;
            }
            i = i + 1;
        }
        let ghost before = rem@;
        let ghost out0 = out@;
        let x = rem.swap_remove(m);
        assert(x == before[m as int]);
        assert(rem@ == before.update(m as int, before.last()).drop_last());
        out.push(Height(x.height));
        proof {
            let n = before.len() - 1;
            assert forall|a: int| 0 <= a < rem@.len() implies #[trigger] rem@[a] == before[if a == m { n } else { a }] by {}
            assert forall|a: int, b: int| 0 <= a < b < rem@.len() implies (#[trigger] rem@[a]).height != (#[trigger] rem@[b]).height by {
                let a0 = if a == m { n } else { a };
                let b0 = if b == m { n } else { b };
                assert(rem@[a] == before[a0] && rem@[b] == before[b0]);
                if a0 < b0 {} else {}
            }
            assert forall|a: int, j: int| 0 <= a < out@.len() && 0 <= j < rem@.len() implies (#[trigger] out@[a]).0 < (#[trigger] rem@[j]).height by {
                let j0 = if j == m { n } else { j };
                assert(rem@[j] == before[j0]);
                assert(j0 != m as int);
                if a < out0.len() {
                    assert(out@[a] == out0[a]);
                } else {
                    assert(before[m as int].height <= before[j0].height);
                    assert(before[m as int].height != before[j0].height);
                }
            }
            assert forall|a: int, b: int| 0 <= a < b < out@.len() implies (#[trigger] out@[a]).0 < (#[trigger] out@[b]).0 by {
                if b == out0.len() {
                    assert(out@[a] == out0[a]);
                    assert(out0[a].0 < before[m as int].height);
                } else {
                    assert(out@[a] == out0[a] && out@[b] == out0[b]);
                }
            }
            assert forall|h: u64| (#[trigger] lists_height(out@, h) || has_height(rem@, h))
                <==> (lists_height(out0, h) || has_height(before, h)) by {
                if exists|a: int| 0 <= a < out@.len() && (#[trigger] out@[a]).0 == h {
                    let a = choose|a: int| 0 <= a < out@.len() && (#[trigger] out@[a]).0 == h;
                    if a < out0.len() {
                        assert(out0[a] == out@[a]);
                    } else {
                        assert(before[m as int].height == h);
                    }
                }
                if exists|j: int| 0 <= j < rem@.len() && (#[trigger] rem@[j]).height == h {
                    let j = choose|j: int| 0 <= j < rem@.len() && (#[trigger] rem@[j]).height == h;
                    let j0 = if j == m { n } else { j };
                    assert(before[j0].height == h);
                }
                if exists|a: int| 0 <= a < out0.len() && (#[trigger] out0[a]).0 == h {
                    let a = choose|a: int| 0 <= a < out0.len() && (#[trigger] out0[a]).0 == h;
                    assert(out@[a] == out0[a]);
                }
                if exists|j: int| 0 <= j < before.len() && (#[trigger] before[j]).height == h {
                    let j = choose|j: int| 0 <= j < before.len() && (#[trigger] before[j]).height == h;
                    if j == m {
                        assert(out@[out0.len() as int].0 == h);
                    } else if j == n {
                        assert(rem@[m as int] == before[n]);
                    } else {
                        assert(rem@[j] == before[j]);
                    }
                }
            }
            assert forall|h: u64| (#[trigger] lists_height(out@, h) || has_height(rem@, h)) <==> has_height(orig, h) by {
                assert((lists_height(out0, h) || has_height(before, h)) <==> has_height(orig, h));
                assert((lists_height(out@, h) || has_height(rem@, h)) <==> (lists_height(out0, h) || has_height(before, h)));
            }
        }
    }
    out
}

/// A copy of a byte string.
pub fn copy_bytes(b: &Vec<u8>) -> (r: Vec<u8>)
    ensures
        r@ == b@,
{
    let r = b.clone();
    assert(r@ =~= b@);
    r
}

pub struct Store {
    decided_values: Table<Value>,
    certificates: Table<CommitCertificate>,
    undecided_proposals: Table<ProposedValue>,
    decided_block_data: Table<Vec<u8>>,
    undecided_block_data: Table<Vec<u8>>,
}

impl Store {
    pub closed spec fn decided_values(&self) -> Map<TableKey, Value> {
        self.decided_values@
    }

    pub closed spec fn certificates(&self) -> Map<TableKey, CommitCertificate> {
        self.certificates@
    }

    pub closed spec fn undecided_proposals(&self) -> Map<TableKey, ProposedValue> {
        self.undecided_proposals@
    }

    pub closed spec fn decided_block_data(&self) -> Map<TableKey, Vec<u8>> {
        self.decided_block_data@
    }

    pub closed spec fn undecided_block_data(&self) -> Map<TableKey, Vec<u8>> {
        self.undecided_block_data@
    }

    pub closed spec fn wf(&self) -> bool {
        &&& self.decided_values.wf()
        &&& self.certificates.wf()
        &&& self.undecided_proposals.wf()
        &&& self.decided_block_data.wf()
        &&& self.undecided_block_data.wf()
        &&& forall|k: TableKey| #[trigger] self.decided_values@.contains_key(k) ==> k.round == Round::Nil
    }

    /// Every key of every table is at height `retain` or above.
    pub open spec fn all_at_or_above(&self, retain: u64) -> bool {
        &&& forall|k: TableKey| #[trigger] self.decided_values().contains_key(k) ==> k.height >= retain
        &&& forall|k: TableKey| #[trigger] self.certificates().contains_key(k) ==> k.height >= retain
        &&& forall|k: TableKey| #[trigger] self.undecided_proposals().contains_key(k) ==> k.height >= retain
        &&& forall|k: TableKey| #[trigger] self.decided_block_data().contains_key(k) ==> k.height >= retain
        &&& forall|k: TableKey| #[trigger] self.undecided_block_data().contains_key(k) ==> k.height >= retain
    }

    /// An empty store.
    pub fn new() -> (r: Store)
        ensures
            r.wf(),
            r.decided_values() == Map::<TableKey, Value>::empty(),
            r.certificates() == Map::<TableKey, CommitCertificate>::empty(),
            r.undecided_proposals() == Map::<TableKey, ProposedValue>::empty(),
            r.decided_block_data() == Map::<TableKey, Vec<u8>>::empty(),
            r.undecided_block_data() == Map::<TableKey, Vec<u8>>::empty(),
    {
        Store {
            decided_values: Table::new(),
            certificates: Table::new(),
            undecided_proposals: Table::new(),
            decided_block_data: Table::new(),
            undecided_block_data: Table::new(),
        }
    }

    /// The decided value at `height` with its certificate; `None` unless both
    /// are stored.
    pub fn get_decided_value(&self, height: Height) -> (r: Option<DecidedValue>)
        requires
            self.wf(),
        ensures
            r is Some <==> self.decided_values().contains_key(height_key(height.0))
                && self.certificates().contains_key(height_key(height.0)),
            r matches Some(d) ==> d.value.view() == self.decided_values()[height_key(
                height.0,
            )].view() && same_certificate(d.certificate, self.certificates()[height_key(height.0)]),
    {
        let key = key_of_height(height);
        let value = match self.decided_values.get(key) {
            Some(v) => v.duplicate(),
            None => return None,
        };
        let certificate = match self.certificates.get(key) {
            Some(c) => c.duplicate(),
            None => return None,
        };
        Some(DecidedValue { value, certificate })
    }

    /// Records `value` as decided at the certificate's height, with the certificate.
    pub fn store_decided_value(&mut self, certificate: &CommitCertificate, value: Value)
        requires
            old(self).wf(),
        ensures
            final(self).wf(),
            final(self).decided_values() == old(self).decided_values().insert(
                height_key(certificate.height.0),
                value,
            ),
            final(self).certificates().dom() == old(self).certificates().dom().insert(
                height_key(certificate.height.0),
            ),
            same_certificate(
                final(self).certificates()[height_key(certificate.height.0)],
                *certificate,
            ),
            forall|k: TableKey|
                k != height_key(certificate.height.0) && #[trigger] old(
                    self,
                ).certificates().contains_key(k) ==> final(self).certificates()[k] == old(
                    self,
                ).certificates()[k],
            final(self).undecided_proposals() == old(self).undecided_proposals(),
            final(self).decided_block_data() == old(self).decided_block_data(),
            final(self).undecided_block_data() == old(self).undecided_block_data(),
    {
        let key = key_of_height(certificate.height);
        self.decided_values.insert(key, value);
        let c = certificate.duplicate();
        self.certificates.insert(key, c);
    }

    /// Stores a proposal unless one is stored at its height and round already.
    pub fn store_undecided_proposal(&mut self, value: ProposedValue)
        requires
            old(self).wf(),
        ensures
            final(self).wf(),
            final(self).undecided_proposals() == if old(self).undecided_proposals().contains_key(
                round_key(value.height.0, value.round),
            ) {
                old(self).undecided_proposals()
            } else {
                old(self).undecided_proposals().insert(round_key(value.height.0, value.round), value)
            },
            final(self).decided_values() == old(self).decided_values(),
            final(self).certificates() == old(self).certificates(),
            final(self).decided_block_data() == old(self).decided_block_data(),
            final(self).undecided_block_data() == old(self).undecided_block_data(),
    {
        let key = key_of_round(value.height, value.round);
        let _ = self.undecided_proposals.insert_if_absent(key, value);
    }

    pub fn get_undecided_proposal(&self, height: Height, round: Round) -> (r: Option<
        ProposedValue,
    >)
        requires
            self.wf(),
        ensures
            r is Some <==> self.undecided_proposals().contains_key(round_key(height.0, round)),
            r matches Some(p) ==> same_proposed(
                p,
                self.undecided_proposals()[round_key(height.0, round)],
            ),
    {
        match self.undecided_proposals.get(key_of_round(height, round)) {
            Some(p) => Some(p.duplicate()),
            None => None,
        }
    }

    /// Stores block bytes under a height and round unless some are there already.
    pub fn store_undecided_block_data(&mut self, height: Height, round: Round, data: Vec<u8>)
        requires
            old(self).wf(),
        ensures
            final(self).wf(),
            final(self).undecided_block_data() == if old(self).undecided_block_data().contains_key(
                round_key(height.0, round),
            ) {
                old(self).undecided_block_data()
            } else {
                old(self).undecided_block_data().insert(round_key(height.0, round), data)
            },
            final(self).decided_values() == old(self).decided_values(),
            final(self).certificates() == old(self).certificates(),
            final(self).undecided_proposals() == old(self).undecided_proposals(),
            final(self).decided_block_data() == old(self).decided_block_data(),
    {
        let _ = self.undecided_block_data.insert_if_absent(key_of_round(height, round), data);
    }

    /// Stores the bytes of the block decided at `height` unless some are there already.
    pub fn store_decided_block_data(&mut self, height: Height, data: Vec<u8>)
        requires
            old(self).wf(),
        ensures
            final(self).wf(),
            final(self).decided_block_data() == if old(self).decided_block_data().contains_key(
                height_key(height.0),
            ) {
                old(self).decided_block_data()
            } else {
                old(self).decided_block_data().insert(height_key(height.0), data)
            },
            final(self).decided_values() == old(self).decided_values(),
            final(self).certificates() == old(self).certificates(),
            final(self).undecided_proposals() == old(self).undecided_proposals(),
            final(self).undecided_block_data() == old(self).undecided_block_data(),
    {
        let _ = self.decided_block_data.insert_if_absent(key_of_height(height), data);
    }

    /// Block bytes under a height and round, falling back to the block decided
    /// at that height.
    pub fn get_block_data(&self, height: Height, round: Round) -> (r: Option<Vec<u8>>)
        requires
            self.wf(),
        ensures
            self.undecided_block_data().contains_key(round_key(height.0, round)) ==> (r matches Some(
                b) && b@ == self.undecided_block_data()[round_key(height.0, round)]@),
            !self.undecided_block_data().contains_key(round_key(height.0, round))
                ==> if self.decided_block_data().contains_key(height_key(height.0)) {
                (r matches Some(b) && b@ == self.decided_block_data()[height_key(height.0)]@)
            } else {
                r is None
            },
    {
        if let Some(b) = self.undecided_block_data.get(key_of_round(height, round)) {
            return Some(copy_bytes(b));
        }
        match self.decided_block_data.get(key_of_height(height)) {
            Some(b) => Some(copy_bytes(b)),
            None => None,
        }
    }

    /// The bytes of the block decided at `height`.
    pub fn get_decided_block(&self, height: Height) -> (r: Option<Vec<u8>>)
        requires
            self.wf(),
        ensures
            r is Some <==> self.decided_block_data().contains_key(height_key(height.0)),
            r matches Some(b) ==> b@ == self.decided_block_data()[height_key(height.0)]@,
    {
        match self.decided_block_data.get(key_of_height(height)) {
            Some(b) => Some(copy_bytes(b)),
            None => None,
        }
    }

    /// Deletes everything below height `retain` from every table; returns the
    /// heights whose decided values were deleted, in ascending order.
    pub fn prune(&mut self, retain: Height) -> (r: Vec<Height>)
        requires
            old(self).wf(),
        ensures
            final(self).wf(),
            final(self).all_at_or_above(retain.0),
            final(self).decided_values() == Table::retained(old(self).decided_values(), retain.0),
            final(self).certificates() == Table::retained(old(self).certificates(), retain.0),
            final(self).undecided_proposals() == Table::retained(old(self).undecided_proposals(), retain.0),
            final(self).decided_block_data() == Table::retained(old(self).decided_block_data(), retain.0),
            final(self).undecided_block_data() == Table::retained(old(self).undecided_block_data(), retain.0),
            forall|h: u64| #[trigger] lists_height(r@, h)
                <==> old(self).decided_values().contains_key(height_key(h)) && h < retain.0,
            forall|i: int, j: int| 0 <= i < j < r@.len() ==> (#[trigger] r@[i]).0 < (#[trigger] r@[j]).0,
    {
        let _ = self.undecided_proposals.remove_below(retain.0);
        let _ = self.undecided_block_data.remove_below(retain.0);
        let ghost old_decided = self.decided_values@;
        let removed = self.decided_values.remove_below(retain.0);
        let _ = self.certificates.remove_below(retain.0);
        let _ = self.decided_block_data.remove_below(retain.0);
        proof {
            assert forall|k: TableKey| #[trigger] self.decided_values@.contains_key(k) implies k.round == Round::Nil by {
                assert(old_decided.contains_key(k));
            }
            assert forall|i: int, j: int| 0 <= i < j < removed@.len() implies (#[trigger] removed@[i]).height != (#[trigger] removed@[j]).height by {
                assert(removed@.contains(removed@[i]) && removed@.contains(removed@[j]));
                assert(old_decided.contains_key(removed@[i]) && old_decided.contains_key(removed@[j]));
            }
        }
        let r = heights_ascending(removed);
        proof {
            assert forall|h: u64| #[trigger] lists_height(r@, h)
                <==> old(self).decided_values().contains_key(height_key(h)) && h < retain.0 by {
                if old(self).decided_values().contains_key(height_key(h)) && h < retain.0 {
                    assert(removed@.contains(height_key(h)));
                    let j = choose|j: int| 0 <= j < removed@.len() && removed@[j] == height_key(h);
                    assert(removed@[j].height == h);
                }
                if lists_height(r@, h) {
                    let j = choose|j: int| 0 <= j < removed@.len() && (#[trigger] removed@[j]).height == h;
                    assert(removed@.contains(removed@[j]));
                    assert(old_decided.contains_key(removed@[j]));
                    assert(removed@[j] == height_key(h));
                }
            }
        }
        r
    }

    /// The lowest height with a decided value.
    pub fn min_decided_value_height(&self) -> (r: Option<Height>)
        requires
            self.wf(),
        ensures
            r is None <==> self.decided_values().dom() == Set::<TableKey>::empty(),
            r matches Some(h) ==> (exists|k: TableKey|
                #[trigger] self.decided_values().contains_key(k) && k.height == h.0)
                && forall|k: TableKey| #[trigger] self.decided_values().contains_key(k) ==> h.0 <= k.height,
    {
        match self.decided_values.min_height() {
            Some(h) => {
                proof {
                    let k = choose|k: TableKey|
                        #[trigger] self.decided_values@.contains_key(k) && k.height == h;
                    assert(self.decided_values().contains_key(k));
                }
                Some(Height(h))
            },
            None => None,
        }
    }

    /// The highest height with a decided value.
    pub fn max_decided_value_height(&self) -> (r: Option<Height>)
        requires
            self.wf(),
        ensures
            r is None <==> self.decided_values().dom() == Set::<TableKey>::empty(),
            r matches Some(h) ==> (exists|k: TableKey|
                #[trigger] self.decided_values().contains_key(k) && k.height == h.0)
                && forall|k: TableKey| #[trigger] self.decided_values().contains_key(k) ==> k.height <= h.0,
    {
        match self.decided_values.max_height() {
            Some(h) => {
                proof {
                    let k = choose|k: TableKey|
                        #[trigger] self.decided_values@.contains_key(k) && k.height == h;
                    assert(self.decided_values().contains_key(k));
                }
                Some(Height(h))
            },
            None => None,
        }
    }
}

} // verus!
