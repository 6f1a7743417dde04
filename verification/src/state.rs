//! Per-key replay protection: the nonce ledger.
//!
//! The ledger maps a sender's raw public key bytes to the next nonce it
//! expects from that key. An unseen key expects 0. A verification is
//! accepted only when the declared nonce equals the expected value
//! exactly, and acceptance advances the expectation by one — a strictly
//! sequential counter, not a high-water mark.

use vstd::prelude::*;
use vstd::slice::slice_to_vec;

use crate::error::ContractError;

verus! {

/// The nonce a ledger expects next for `key`: its stored value, or 0
/// for a key it has never seen.
pub open spec fn expected_for(m: Map<Seq<u8>, u128>, key: Seq<u8>) -> u128 {
    if m.contains_key(key) {
        m[key]
    } else {
        0u128
    }
}

/// No two records carry the same key.
pub open spec fn keys_distinct(s: Seq<(Vec<u8>, u128)>) -> bool {
    forall|i: int, j: int| 0 <= i < j < s.len() ==> s[i].0@ != s[j].0@
}

/// The mapping a record list stands for; later records win, though a
/// well-formed ledger never repeats a key.
pub open spec fn entries_map(s: Seq<(Vec<u8>, u128)>) -> Map<Seq<u8>, u128>
    decreases s.len(),
{
    if s.len() == 0 {
        Map::empty()
    } else {
        entries_map(s.drop_last()).insert(s.last().0@, s.last().1)
    }
}

/// A key occurs in the mapping exactly when some record carries it.
proof fn lemma_entries_map_contains(s: Seq<(Vec<u8>, u128)>, k: Seq<u8>)
    ensures
        entries_map(s).contains_key(k) <==> exists|i: int| 0 <= i < s.len() && s[i].0@ == k,
    decreases s.len(),
{
    if s.len() == 0 {
        assert(!Map::<Seq<u8>, u128>::empty().contains_key(k));
    } else {
        lemma_entries_map_contains(s.drop_last(), k);
        if s.last().0@ == k {
            assert(s[s.len() - 1].0@ == k);
        } else {
            if entries_map(s).contains_key(k) {
                let i = choose|i: int| 0 <= i < s.drop_last().len() && s.drop_last()[i].0@ == k;
                assert(s[i].0@ == k);
            }
            if exists|i: int| 0 <= i < s.len() && s[i].0@ == k {
                let i = choose|i: int| 0 <= i < s.len() && s[i].0@ == k;
                assert(i < s.len() - 1);
                assert(s.drop_last()[i].0@ == k);
            }
        }
    }
}

/// With distinct keys, the mapping returns the value of the record that
/// carries the key.
proof fn lemma_entries_map_value(s: Seq<(Vec<u8>, u128)>, k: Seq<u8>, i: int)
    requires
        keys_distinct(s),
        0 <= i < s.len(),
        s[i].0@ == k,
    ensures
        entries_map(s).contains_key(k),
        entries_map(s)[k] == s[i].1,
    decreases s.len(),
{
    if i == s.len() - 1 {
    } else {
        assert(keys_distinct(s.drop_last())) by {
            assert(forall|a: int, b: int|
                0 <= a < b < s.drop_last().len() ==> s.drop_last()[a].0@ != s.drop_last()[b].0@);
        }
        assert(s.drop_last()[i].0@ == k);
        lemma_entries_map_value(s.drop_last(), k, i);
        assert(s.last().0@ != k);
    }
}

/// Replacing the record at `i` by one with the same key rewrites just
/// that key's value.
proof fn lemma_entries_map_update(s: Seq<(Vec<u8>, u128)>, i: int, e: (Vec<u8>, u128))
    requires
        keys_distinct(s),
        0 <= i < s.len(),
        e.0@ == s[i].0@,
    ensures
        entries_map(s.update(i, e)) =~= entries_map(s).insert(e.0@, e.1),
    decreases s.len(),
{
    let s2 = s.update(i, e);
    if i == s.len() - 1 {
        assert(s2.drop_last() =~= s.drop_last());
        assert(s2.last() == e);
    } else {
        assert(keys_distinct(s.drop_last())) by {
            assert(forall|a: int, b: int|
                0 <= a < b < s.drop_last().len() ==> s.drop_last()[a].0@ != s.drop_last()[b].0@);
        }
        lemma_entries_map_update(s.drop_last(), i, e);
        assert(s2.drop_last() =~= s.drop_last().update(i, e));
        assert(s2.last() == s.last());
        assert(s.last().0@ != e.0@);
    }
}

/// The per-key monotonic counter that prevents replay.
pub struct NonceLedger {
    entries: Vec<(Vec<u8>, u128)>,
}

impl View for NonceLedger {
    type V = Map<Seq<u8>, u128>;

    closed spec fn view(&self) -> Map<Seq<u8>, u128> {
        entries_map(self.entries@)
    }
}

impl NonceLedger {
    /// A well-formed ledger holds at most one record per key.
    pub closed spec fn wf(&self) -> bool {
        keys_distinct(self.entries@)
    }

    /// An empty ledger: every key expects nonce 0.
    pub fn new() -> (l: NonceLedger)
        ensures
            l.wf(),
            l@ == Map::<Seq<u8>, u128>::empty(),
    {
        NonceLedger { entries: Vec::new() }
    }

    /// A ledger holding the given records, as a host restores them from
    /// its backing store. Later records win where a key repeats.
    pub fn from_records(records: Vec<(Vec<u8>, u128)>) -> (l: NonceLedger)
        ensures
            l.wf(),
            l@ == entries_map(records@),
    {
        let mut l = NonceLedger { entries: Vec::new() };
        let n = records.len();
        let mut i: usize = 0;
        while i < n
            invariant
                n == records@.len(),
                i <= n,
                l.wf(),
                l@ == entries_map(records@.subrange(0, i as int)),
            decreases n - i,
        {
            proof {
                assert(records@.subrange(0, i as int + 1).drop_last() =~= records@.subrange(
                    0,
                    i as int,
                ));
            }
            let value = records[i].1;
            l.set_value(records[i].0.as_slice(), value);
            i = i + 1;
        }
        proof {
            assert(records@.subrange(0, n as int) =~= records@);
        }
        l
    }

    /// The record position holding `key`, if any.
    fn find_index(&self, key: &[u8]) -> (r: Option<usize>)
        ensures
            r matches Some(i) ==> i < self.entries@.len() && self.entries@[i as int].0@ == key@,
            r is None ==> forall|i: int| 0 <= i < self.entries@.len() ==> self.entries@[i].0@
                != key@,
    {
        let n = self.entries.len();
        let mut i: usize = 0;
        while i < n
            invariant
                n == self.entries@.len(),
                i <= n,
                forall|j: int| 0 <= j < i ==> self.entries@[j].0@ != key@,
            decreases n - i,
        {
            if bytes_eq(self.entries[i].0.as_slice(), key) {
                return Some(i);
            }
            i = i + 1;
        }
        None
    }

    /// The nonce this ledger expects next for `key` (0 for unseen keys).
    pub fn expected_nonce(&self, key: &[u8]) -> (n: u128)
        requires
            self.wf(),
        ensures
            n == expected_for(self@, key@),
    {
        match self.find_index(key) {
            Some(i) => {
                proof {
                    lemma_entries_map_value(self.entries@, key@, i as int);
                }
                self.entries[i].1
            },
            None => {
                proof {
                    lemma_entries_map_contains(self.entries@, key@);
                }
                0
            },
        }
    }

    /// Stores `value` as the nonce expected next for `key`, replacing
    /// any earlier record.
    fn set_value(&mut self, key: &[u8], value: u128)
        requires
            old(self).wf(),
        ensures
            final(self).wf(),
            final(self)@ == old(self)@.insert(key@, value),
    {
        let k = slice_to_vec(key);
        match self.find_index(key) {
            Some(i) => {
                proof {
                    lemma_entries_map_update(self.entries@, i as int, (k, value));
                }
                self.entries[i] = (k, value);
                proof {
                    assert forall|a: int, b: int|
                        0 <= a < b < self.entries@.len() implies self.entries@[a].0@
                        != self.entries@[b].0@ by {
                        assert(self.entries@[a].0@ == old(self).entries@[a].0@);
                        assert(self.entries@[b].0@ == old(self).entries@[b].0@);
                    }
                }
            },
            None => {
                self.entries.push((k, value));
                proof {
                    assert(self.entries@.drop_last() =~= old(self).entries@);
                    assert forall|a: int, b: int|
                        0 <= a < b < self.entries@.len() implies self.entries@[a].0@
                        != self.entries@[b].0@ by {
                        if b < self.entries@.len() - 1 {
                            assert(self.entries@[a].0@ == old(self).entries@[a].0@);
                            assert(self.entries@[b].0@ == old(self).entries@[b].0@);
                        } else {
                            assert(self.entries@[a].0@ == old(self).entries@[a].0@);
                            assert(self.entries@[b].0@ == key@);
                        }
                    }
                }
            },
        }
    }

    /// The replay gate: accepts `declared` exactly when it equals the
    /// expected nonce and advancing cannot overflow, and then advances
    /// the expectation by one. Rejection leaves the ledger unchanged.
    pub fn check_and_advance(&mut self, key: &[u8], declared: u128) -> (r: Result<
        (),
        ContractError,
    >)
        requires
            old(self).wf(),
        ensures
            final(self).wf(),
            r is Ok <==> declared == expected_for(old(self)@, key@) && declared < u128::MAX,
            r is Ok ==> final(self)@ == old(self)@.insert(key@, (declared + 1) as u128),
            r is Err ==> final(self)@ == old(self)@,
            r matches Err(e) ==> e == (if declared != expected_for(old(self)@, key@) {
                ContractError::InvalidNonce
            } else {
                ContractError::NonceOverflow
            }),
    {
        let expected = self.expected_nonce(key);
        if declared != expected {
            return Err(ContractError::InvalidNonce);
        }
        if expected == u128::MAX {
            return Err(ContractError::NonceOverflow);
        }
        self.set_value(key, expected + 1);
        Ok(())
    }
}

/// Whether two byte strings hold the same bytes.
fn bytes_eq(a: &[u8], b: &[u8]) -> (r: bool)
    ensures
        r == (a@ == b@),
{
    let n = a.len();
    if n != b.len() {
        return false;
    }
    let mut i: usize = 0;
    while i < n
        invariant
            n == a@.len(),
            n == b@.len(),
            i <= n,
            forall|j: int| 0 <= j < i ==> a@[j] == b@[j],
        decreases n - i,
    {
        if a[i] != b[i] {
            return false;
        }
        i = i + 1;
    }
    proof {
        assert(a@ =~= b@);
    }
    true
}

/// Nonce strictness: once a verification at nonce `n` has been accepted
/// for a key, the ledger expects exactly `n + 1` from that key. A
/// replay of `n`, and any other declared value besides `n + 1`, no
/// longer equals the expected value; only `n + 1` is accepted next.
pub proof fn lemma_nonce_strictness(m: Map<Seq<u8>, u128>, key: Seq<u8>, n: u128, d: u128)
    requires
        n == expected_for(m, key),
        n < u128::MAX,
    ensures
        expected_for(m.insert(key, (n + 1) as u128), key) == n + 1,
        d != n + 1 ==> d != expected_for(m.insert(key, (n + 1) as u128), key),
{
}

} // verus!
