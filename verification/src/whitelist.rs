use vstd::prelude::*;

use crate::error::VaultError;
use crate::pubkey::Pubkey;

verus! {

/// The whitelist account: the token accounts allowed to use the vault,
/// each with the amount it has deposited and not yet withdrawn.
pub struct Whitelist {
    pub address: Vec<(Pubkey, u64)>,
    pub whitelist_bump: u8,
}

/// Some entry of `entries` belongs to `key`.
pub open spec fn has_key(entries: Seq<(Pubkey, u64)>, key: Pubkey) -> bool {
    exists|i: int| #![trigger entries[i]] 0 <= i < entries.len() && entries[i].0 == key
}

/// `i` is the first index of `entries` whose entry belongs to `key`.
pub open spec fn is_first_position(entries: Seq<(Pubkey, u64)>, key: Pubkey, i: int) -> bool {
    &&& 0 <= i < entries.len()
    &&& entries[i].0 == key
    &&& forall|j: int| #![trigger entries[j]] 0 <= j < i ==> entries[j].0 != key
}

/// The first index whose entry belongs to `key` (meaningful when `has_key`).
pub open spec fn first_position(entries: Seq<(Pubkey, u64)>, key: Pubkey) -> int {
    choose|i: int| is_first_position(entries, key, i)
}

/// The recorded balance of `key`: that of its first entry.
pub open spec fn balance_of(entries: Seq<(Pubkey, u64)>, key: Pubkey) -> Option<u64> {
    if has_key(entries, key) {
        Some(entries[first_position(entries, key)].1)
    } else {
        None
    }
}

/// No key has two entries.
pub open spec fn keys_distinct(entries: Seq<(Pubkey, u64)>) -> bool {
    forall|i: int, j: int|
        #![trigger entries[i], entries[j]]
        0 <= i < j < entries.len() ==> entries[i].0 != entries[j].0
}

/// The entries after `key` is admitted: unchanged if it is already there,
/// otherwise with a new entry of zero balance at the end.
pub open spec fn added(entries: Seq<(Pubkey, u64)>, key: Pubkey) -> Seq<(Pubkey, u64)> {
    if has_key(entries, key) {
        entries
    } else {
        entries.push((key, 0u64))
    }
}

/// The entries without the first entry of `key`.
pub open spec fn removed(entries: Seq<(Pubkey, u64)>, key: Pubkey) -> Seq<(Pubkey, u64)> {
    entries.remove(first_position(entries, key))
}

/// Adding `amount` to the balance of `key` would not fit in a `u64`.
pub open spec fn credit_overflows(entries: Seq<(Pubkey, u64)>, key: Pubkey, amount: u64) -> bool {
    has_key(entries, key) && entries[first_position(entries, key)].1 + amount > u64::MAX
}

/// The entries after `amount` is added to the balance of `key`
/// (unchanged when `key` has no entry).
pub open spec fn credited(entries: Seq<(Pubkey, u64)>, key: Pubkey, amount: u64) -> Seq<(Pubkey, u64)> {
    if has_key(entries, key) {
        let p = first_position(entries, key);
        entries.update(p, (entries[p].0, (entries[p].1 + amount) as u64))
    } else {
        entries
    }
}

/// The balance of `key` is smaller than `amount`.
pub open spec fn debit_underflows(entries: Seq<(Pubkey, u64)>, key: Pubkey, amount: u64) -> bool {
    has_key(entries, key) && entries[first_position(entries, key)].1 < amount
}

/// The entries after `amount` is taken from the balance of `key`: the entry
/// goes away when its balance reaches zero (unchanged when `key` has no entry).
pub open spec fn debited(entries: Seq<(Pubkey, u64)>, key: Pubkey, amount: u64) -> Seq<(Pubkey, u64)> {
    if has_key(entries, key) {
        let p = first_position(entries, key);
        let rest = entries[p].1 - amount;
        if rest == 0 {
            entries.remove(p)
        } else {
            entries.update(p, (entries[p].0, rest as u64))
        }
    } else {
        entries
    }
}

/// The first position of a present key exists and is the only index with that property.
pub proof fn lemma_first_position(entries: Seq<(Pubkey, u64)>, key: Pubkey)
    requires
        has_key(entries, key),
    ensures
        is_first_position(entries, key, first_position(entries, key)),
        forall|i: int|
            is_first_position(entries, key, i) ==> i == first_position(entries, key),
{
    let n = choose|i: int| #![trigger entries[i]] 0 <= i < entries.len() && entries[i].0 == key;
    lemma_first_position_below(entries, key, n);
    let f = first_position(entries, key);
    assert forall|i: int| is_first_position(entries, key, i) implies i == f by {
        if i < f {
            assert(entries[i].0 == key);
        } else if f < i {
            assert(entries[f].0 == key);
        }
    }
}

proof fn lemma_first_position_below(entries: Seq<(Pubkey, u64)>, key: Pubkey, n: int)
    requires
        0 <= n < entries.len(),
        entries[n].0 == key,
    ensures
        exists|i: int| is_first_position(entries, key, i),
    decreases n,
{
    if exists|j: int| #![trigger entries[j]] 0 <= j < n && entries[j].0 == key {
        let j = choose|j: int| #![trigger entries[j]] 0 <= j < n && entries[j].0 == key;
        lemma_first_position_below(entries, key, j);
    } else {
        assert(is_first_position(entries, key, n));
    }
}

/// Two entry lists with the same key at every index agree on which keys are
/// present and where their first entries are.
proof fn lemma_same_keys(s1: Seq<(Pubkey, u64)>, s2: Seq<(Pubkey, u64)>, key: Pubkey)
    requires
        s1.len() == s2.len(),
        forall|i: int| 0 <= i < s1.len() ==> #[trigger] s1[i].0 == s2[i].0,
    ensures
        has_key(s1, key) == has_key(s2, key),
        has_key(s1, key) ==> first_position(s1, key) == first_position(s2, key),
{
    if has_key(s1, key) {
        lemma_first_position(s1, key);
        let f = first_position(s1, key);
        assert(s2[f].0 == key);
        assert(is_first_position(s2, key, f)) by {
            assert forall|j: int| #![trigger s2[j]] 0 <= j < f implies s2[j].0 != key by {
                assert(s1[j].0 == s2[j].0);
            }
        }
        lemma_first_position(s2, key);
    } else if has_key(s2, key) {
        let i = choose|i: int| #![trigger s2[i]] 0 <= i < s2.len() && s2[i].0 == key;
        assert(s1[i].0 == key);
    }
}

/// A key that has just been admitted is in the whitelist, with its earlier
/// balance, or with zero if it was new.
pub proof fn lemma_admitted_key_is_contained(entries: Seq<(Pubkey, u64)>, key: Pubkey)
    ensures
        has_key(added(entries, key), key),
        balance_of(added(entries, key), key) == (if has_key(entries, key) {
            balance_of(entries, key)
        } else {
            Some(0u64)
        }),
{
    if !has_key(entries, key) {
        let s2 = added(entries, key);
        let n = entries.len() as int;
        assert(s2[n].0 == key);
        assert(is_first_position(s2, key, n)) by {
            assert forall|j: int| #![trigger s2[j]] 0 <= j < n implies s2[j].0 != key by {
                assert(s2[j] == entries[j]);
            }
        }
        lemma_first_position(s2, key);
    }
}

/// Admitting a key twice is the same as admitting it once.
pub proof fn lemma_admit_is_idempotent(entries: Seq<(Pubkey, u64)>, key: Pubkey)
    ensures
        added(added(entries, key), key) == added(entries, key),
{
    lemma_admitted_key_is_contained(entries, key);
}

/// In a whitelist without repeated keys, a removed key is no longer contained.
pub proof fn lemma_removed_key_is_gone(entries: Seq<(Pubkey, u64)>, key: Pubkey)
    requires
        keys_distinct(entries),
        has_key(entries, key),
    ensures
        !has_key(removed(entries, key), key),
{
    lemma_first_position(entries, key);
    let p = first_position(entries, key);
    let s2 = removed(entries, key);
    if has_key(s2, key) {
        let i = choose|i: int| #![trigger s2[i]] 0 <= i < s2.len() && s2[i].0 == key;
        if i < p {
            assert(s2[i] == entries[i]);
        } else {
            assert(s2[i] == entries[i + 1]);
        }
    }
}

/// Admitting, removing, crediting and debiting never create a repeated key.
pub proof fn lemma_operations_keep_keys_distinct(entries: Seq<(Pubkey, u64)>, key: Pubkey, amount: u64)
    requires
        keys_distinct(entries),
    ensures
        keys_distinct(added(entries, key)),
        has_key(entries, key) ==> keys_distinct(removed(entries, key)),
        keys_distinct(credited(entries, key, amount)),
        keys_distinct(debited(entries, key, amount)),
{
    let a = added(entries, key);
    if !has_key(entries, key) {
        assert forall|i: int, j: int| #![trigger a[i], a[j]] 0 <= i < j < a.len() implies a[i].0 != a[j].0 by {
            if j == entries.len() {
                assert(a[i] == entries[i]);
            } else {
                assert(a[i] == entries[i] && a[j] == entries[j]);
            }
        }
    }
    if has_key(entries, key) {
        lemma_first_position(entries, key);
        let p = first_position(entries, key);
        let r = entries.remove(p);
        assert forall|i: int, j: int| #![trigger r[i], r[j]] 0 <= i < j < r.len() implies r[i].0 != r[j].0 by {
            let i0 = if i < p { i } else { i + 1 };
            let j0 = if j < p { j } else { j + 1 };
            assert(r[i] == entries[i0] && r[j] == entries[j0]);
        }
        let rest = entries[p].1 - amount;
        let c = entries.update(p, (entries[p].0, (entries[p].1 + amount) as u64));
        assert forall|i: int, j: int| #![trigger c[i], c[j]] 0 <= i < j < c.len() implies c[i].0 != c[j].0 by {
            assert(c[i].0 == entries[i].0 && c[j].0 == entries[j].0);
        }
        let d = entries.update(p, (entries[p].0, rest as u64));
        assert forall|i: int, j: int| #![trigger d[i], d[j]] 0 <= i < j < d.len() implies d[i].0 != d[j].0 by {
            assert(d[i].0 == entries[i].0 && d[j].0 == entries[j].0);
        }
    }
}

/// Crediting `amount` to a present key raises its balance by exactly
/// `amount` and leaves every other key's balance as it was.
pub proof fn lemma_credit_balance(entries: Seq<(Pubkey, u64)>, key: Pubkey, amount: u64)
    requires
        has_key(entries, key),
        !credit_overflows(entries, key, amount),
    ensures
        balance_of(credited(entries, key, amount), key) == Some(
            (balance_of(entries, key).unwrap() + amount) as u64,
        ),
        forall|other: Pubkey|
            other != key ==> #[trigger] balance_of(credited(entries, key, amount), other)
                == balance_of(entries, other),
{
    lemma_first_position(entries, key);
    let p = first_position(entries, key);
    let c = credited(entries, key, amount);
    assert forall|other: Pubkey| true implies has_key(c, other) == has_key(entries, other)
        && (has_key(entries, other) ==> first_position(c, other) == first_position(entries, other)) by {
        lemma_same_keys(entries, c, other);
    }
    assert forall|other: Pubkey|
        other != key implies #[trigger] balance_of(c, other) == balance_of(entries, other) by {
        if has_key(entries, other) {
            lemma_first_position(entries, other);
            assert(first_position(entries, other) != p);
        }
    }
}

/// Taking out the first entry of a present key leaves one entry fewer and
/// every other key present or absent with the balance it had.
proof fn lemma_remove_first_entry(entries: Seq<(Pubkey, u64)>, key: Pubkey)
    requires
        has_key(entries, key),
    ensures
        entries.remove(first_position(entries, key)).len() == entries.len() - 1,
        forall|other: Pubkey|
            other != key ==> #[trigger] balance_of(entries.remove(first_position(entries, key)), other)
                == balance_of(entries, other),
{
    lemma_first_position(entries, key);
    let p = first_position(entries, key);
    let d = entries.remove(p);
    assert forall|other: Pubkey|
        other != key implies #[trigger] balance_of(d, other) == balance_of(entries, other) by {
        if has_key(entries, other) {
            lemma_first_position(entries, other);
            let q = first_position(entries, other);
            assert(q != p);
            let q2 = if q < p { q } else { q - 1 };
            assert(d[q2] == entries[q]);
            assert(is_first_position(d, other, q2)) by {
                assert forall|j: int| #![trigger d[j]] 0 <= j < q2 implies d[j].0 != other by {
                    if j < p {
                        assert(d[j] == entries[j]);
                    } else {
                        assert(d[j] == entries[j + 1]);
                    }
                }
            }
            lemma_first_position(d, other);
        } else if has_key(d, other) {
            let i = choose|i: int| #![trigger d[i]] 0 <= i < d.len() && d[i].0 == other;
            let i0 = if i < p { i } else { i + 1 };
            assert(d[i] == entries[i0]);
        }
    }
}

/// Removing a present key takes out exactly one entry, its first, and leaves
/// every other key present or absent with the balance it had.
pub proof fn lemma_remove_keeps_others(entries: Seq<(Pubkey, u64)>, key: Pubkey)
    requires
        has_key(entries, key),
    ensures
        removed(entries, key).len() == entries.len() - 1,
        removed(entries, key) == entries.remove(first_position(entries, key)),
        forall|other: Pubkey|
            other != key ==> #[trigger] balance_of(removed(entries, key), other)
                == balance_of(entries, other),
{
    lemma_remove_first_entry(entries, key);
}

/// Admitting a key keeps every key that was present with the balance it had,
/// and the admitted key is present afterwards (with zero if it was new).
pub proof fn lemma_admit_keeps_balances(entries: Seq<(Pubkey, u64)>, key: Pubkey)
    ensures
        has_key(added(entries, key), key),
        !has_key(entries, key) ==> balance_of(added(entries, key), key) == Some(0u64),
        added(entries, key).len() == entries.len() + (if has_key(entries, key) { 0int } else { 1int }),
        forall|other: Pubkey|
            has_key(entries, other) ==> #[trigger] balance_of(added(entries, key), other)
                == balance_of(entries, other),
        forall|other: Pubkey|
            other != key ==> #[trigger] has_key(added(entries, key), other) == has_key(entries, other),
{
    lemma_admitted_key_is_contained(entries, key);
    if !has_key(entries, key) {
        let a = entries.push((key, 0u64));
        assert(a =~= added(entries, key));
        assert forall|other: Pubkey|
            has_key(entries, other) implies #[trigger] balance_of(a, other) == balance_of(entries, other) by {
            lemma_first_position(entries, other);
            let q = first_position(entries, other);
            assert(a[q] == entries[q]);
            assert(is_first_position(a, other, q)) by {
                assert forall|j: int| #![trigger a[j]] 0 <= j < q implies a[j].0 != other by {
                    assert(a[j] == entries[j]);
                }
            }
            lemma_first_position(a, other);
        }
        assert forall|other: Pubkey|
            other != key implies #[trigger] has_key(a, other) == has_key(entries, other) by {
            if has_key(a, other) {
                let i = choose|i: int| #![trigger a[i]] 0 <= i < a.len() && a[i].0 == other;
                assert(a[i] == entries[i]);
            }
            if has_key(entries, other) {
                let i = choose|i: int| #![trigger entries[i]] 0 <= i < entries.len() && entries[i].0 == other;
                assert(a[i] == entries[i]);
            }
        }
    }
}

/// Debiting `amount` from a present key lowers its balance by exactly
/// `amount`, removes its entry when nothing is left (so, without repeated
/// keys, the key is gone), and leaves every other key's balance as it was.
pub proof fn lemma_debit_balance(entries: Seq<(Pubkey, u64)>, key: Pubkey, amount: u64)
    requires
        has_key(entries, key),
        !debit_underflows(entries, key, amount),
    ensures
        balance_of(entries, key).unwrap() > amount ==> balance_of(debited(entries, key, amount), key)
            == Some((balance_of(entries, key).unwrap() - amount) as u64),
        balance_of(entries, key).unwrap() == amount ==> debited(entries, key, amount) == entries.remove(
            first_position(entries, key),
        ),
        balance_of(entries, key).unwrap() == amount && keys_distinct(entries) ==> !has_key(
            debited(entries, key, amount),
            key,
        ),
        forall|other: Pubkey|
            other != key ==> #[trigger] balance_of(debited(entries, key, amount), other)
                == balance_of(entries, other),
{
    lemma_first_position(entries, key);
    let p = first_position(entries, key);
    let d = debited(entries, key, amount);
    if entries[p].1 == amount {
        lemma_remove_first_entry(entries, key);
        if keys_distinct(entries) {
            lemma_removed_key_is_gone(entries, key);
        }
    } else {
        assert forall|other: Pubkey| true implies has_key(d, other) == has_key(entries, other)
            && (has_key(entries, other) ==> first_position(d, other) == first_position(entries, other)) by {
            lemma_same_keys(entries, d, other);
        }
        assert forall|other: Pubkey|
            other != key implies #[trigger] balance_of(d, other) == balance_of(entries, other) by {
            if has_key(entries, other) {
                lemma_first_position(entries, other);
                assert(first_position(entries, other) != p);
            }
        }
    }
}

/// Depositing and then withdrawing the same amount gives back the ledger
/// one started from, as long as the key held a positive balance before.
pub proof fn lemma_deposit_then_withdraw_restores(entries: Seq<(Pubkey, u64)>, key: Pubkey, amount: u64)
    requires
        has_key(entries, key),
        balance_of(entries, key).unwrap() > 0,
        !credit_overflows(entries, key, amount),
    ensures
        !debit_underflows(credited(entries, key, amount), key, amount),
        debited(credited(entries, key, amount), key, amount) == entries,
{
    lemma_first_position(entries, key);
    let p = first_position(entries, key);
    let c = credited(entries, key, amount);
    lemma_same_keys(entries, c, key);
    let d = debited(c, key, amount);
    assert(d =~= entries);
}

/// Withdrawing and then depositing the same amount gives back the ledger
/// one started from, as long as some balance was left after the withdrawal.
pub proof fn lemma_withdraw_then_deposit_restores(entries: Seq<(Pubkey, u64)>, key: Pubkey, amount: u64)
    requires
        has_key(entries, key),
        balance_of(entries, key).unwrap() > amount,
    ensures
        !debit_underflows(entries, key, amount),
        !credit_overflows(debited(entries, key, amount), key, amount),
        credited(debited(entries, key, amount), key, amount) == entries,
{
    lemma_first_position(entries, key);
    let p = first_position(entries, key);
    let d = debited(entries, key, amount);
    lemma_same_keys(entries, d, key);
    let c = credited(d, key, amount);
    assert(c =~= entries);
}

/// A withdrawal that passed the balance check can always be recorded.
pub proof fn lemma_accepted_withdrawal_settles(entries: Seq<(Pubkey, u64)>, key: Pubkey, amount: u64)
    requires
        has_key(entries, key),
        amount <= balance_of(entries, key).unwrap(),
    ensures
        !debit_underflows(entries, key, amount),
{
}

impl Whitelist {
    /// The index of the first entry that belongs to `key`, if any.
    pub fn position(&self, key: &Pubkey) -> (pos: Option<usize>)
        ensures
            match pos {
                Some(i) => {
                    &&& has_key(self.address@, *key)
                    &&& is_first_position(self.address@, *key, i as int)
                    &&& i == first_position(self.address@, *key)
                },
                None => !has_key(self.address@, *key),
            },
    {
        let mut i: usize = 0;
        while i < self.address.len()
            invariant
                i <= self.address@.len(),
                forall|j: int| #![trigger self.address@[j]] 0 <= j < i ==> self.address@[j].0 != *key,
            decreases self.address@.len() - i,
        {
            if self.address[i].0.equals(key) {
                proof {
                    assert(is_first_position(self.address@, *key, i as int));
                    lemma_first_position(self.address@, *key);
                }
                return Some(i);
            }
            i = i + 1;
        }
        None
    }

    /// Whether some entry belongs to `address`.
    pub fn contains_address(&self, address: &Pubkey) -> (found: bool)
        ensures
            found == has_key(self.address@, *address),
    {
        self.position(address).is_some()
    }

    /// The recorded balance of `key`, if it is in the whitelist.
    pub fn balance(&self, key: &Pubkey) -> (amount: Option<u64>)
        ensures
            amount == balance_of(self.address@, *key),
    {
        match self.position(key) {
            Some(p) => Some(self.address[p].1),
            None => None,
        }
    }
    /// Admits `key` with a zero balance; a key already admitted is left as it is.
    pub fn add_address(&mut self, key: Pubkey)
        ensures
            final(self).address@ == added(old(self).address@, key),
            final(self).whitelist_bump == old(self).whitelist_bump,
            keys_distinct(old(self).address@) ==> keys_distinct(final(self).address@),
            has_key(final(self).address@, key),
            has_key(old(self).address@, key) ==> final(self).address@ == old(self).address@,
            !has_key(old(self).address@, key) ==> {
                &&& final(self).address@.len() == old(self).address@.len() + 1
                &&& balance_of(final(self).address@, key) == Some(0u64)
            },
            forall|other: Pubkey|
                has_key(old(self).address@, other) ==> #[trigger] balance_of(final(self).address@, other)
                    == balance_of(old(self).address@, other),
            forall|other: Pubkey|
                other != key ==> #[trigger] has_key(final(self).address@, other) == has_key(
                    old(self).address@,
                    other,
                ),
    {
        proof {
            if keys_distinct(self.address@) {
                lemma_operations_keep_keys_distinct(self.address@, key, 0);
            }
            lemma_admit_keeps_balances(self.address@, key);
        }
        if !self.contains_address(&key) {
            self.address.push((key, 0));
        }
    }

    /// Removes the first entry of `key`; refused when `key` has no entry.
    pub fn remove_address(&mut self, key: &Pubkey) -> (result: Result<(), VaultError>)
        ensures
            final(self).whitelist_bump == old(self).whitelist_bump,
            keys_distinct(old(self).address@) ==> keys_distinct(final(self).address@),
            match result {
                Ok(()) => {
                    &&& has_key(old(self).address@, *key)
                    &&& final(self).address@ == removed(old(self).address@, *key)
                    &&& final(self).address@ == old(self).address@.remove(
                        first_position(old(self).address@, *key),
                    )
                    &&& final(self).address@.len() == old(self).address@.len() - 1
                    &&& forall|other: Pubkey|
                        other != *key ==> #[trigger] balance_of(final(self).address@, other)
                            == balance_of(old(self).address@, other)
                },
                Err(e) => {
                    &&& e == VaultError::UserNotExistInVec
                    &&& !has_key(old(self).address@, *key)
                    &&& final(self).address@ == old(self).address@
                },
            },
    {
        proof {
            if keys_distinct(self.address@) {
                lemma_operations_keep_keys_distinct(self.address@, *key, 0);
            }
            if has_key(self.address@, *key) {
                lemma_remove_first_entry(self.address@, *key);
            }
        }
        match self.position(key) {
            Some(p) => {
                self.address.remove(p);
                Ok(())
            },
            None => Err(VaultError::UserNotExistInVec),
        }
    }

    /// Adds `amount` to the balance of `key`; nothing changes when `key` has no entry.
    pub fn credit(&mut self, key: &Pubkey, amount: u64) -> (result: Result<(), VaultError>)
        ensures
            final(self).whitelist_bump == old(self).whitelist_bump,
            keys_distinct(old(self).address@) ==> keys_distinct(final(self).address@),
            match result {
                Ok(()) => {
                    &&& !credit_overflows(old(self).address@, *key, amount)
                    &&& final(self).address@ == credited(old(self).address@, *key, amount)
                    &&& final(self).address@.len() == old(self).address@.len()
                    &&& has_key(old(self).address@, *key) ==> balance_of(final(self).address@, *key)
                        == Some((balance_of(old(self).address@, *key).unwrap() + amount) as u64)
                    &&& has_key(old(self).address@, *key) ==> balance_of(old(self).address@, *key).unwrap()
                        + amount <= u64::MAX
                    &&& !has_key(old(self).address@, *key) ==> final(self).address@ == old(self).address@
                    &&& forall|other: Pubkey|
                        other != *key ==> #[trigger] balance_of(final(self).address@, other)
                            == balance_of(old(self).address@, other)
                },
                Err(e) => {
                    &&& e == VaultError::AdditionAtUpdateUserOverflow
                    &&& credit_overflows(old(self).address@, *key, amount)
                    &&& has_key(old(self).address@, *key)
                    &&& balance_of(old(self).address@, *key).unwrap() + amount > u64::MAX
                    &&& final(self).address@ == old(self).address@
                },
            },
    {
        proof {
            if keys_distinct(self.address@) {
                lemma_operations_keep_keys_distinct(self.address@, *key, amount);
            }
            if has_key(self.address@, *key) {
                lemma_first_position(self.address@, *key);
                if !credit_overflows(self.address@, *key, amount) {
                    lemma_credit_balance(self.address@, *key, amount);
                }
            }
        }
        match self.position(key) {
            Some(p) => {
                let (owner, current) = self.address[p];
                match current.checked_add(amount) {
                    Some(total) => {
                        self.address.set(p, (owner, total));
                        Ok(())
                    },
                    None => Err(VaultError::AdditionAtUpdateUserOverflow),
                }
            },
            None => Ok(()),
        }
    }

    /// Takes `amount` from the balance of `key`, removing the entry when it
    /// reaches zero; nothing changes when `key` has no entry.
    pub fn debit(&mut self, key: &Pubkey, amount: u64) -> (result: Result<(), VaultError>)
        ensures
            final(self).whitelist_bump == old(self).whitelist_bump,
            keys_distinct(old(self).address@) ==> keys_distinct(final(self).address@),
            match result {
                Ok(()) => {
                    &&& !debit_underflows(old(self).address@, *key, amount)
                    &&& final(self).address@ == debited(old(self).address@, *key, amount)
                    &&& has_key(old(self).address@, *key) ==> amount <= balance_of(
                        old(self).address@,
                        *key,
                    ).unwrap()
                    &&& has_key(old(self).address@, *key) && amount < balance_of(
                        old(self).address@,
                        *key,
                    ).unwrap() ==> {
                        &&& final(self).address@.len() == old(self).address@.len()
                        &&& balance_of(final(self).address@, *key) == Some(
                            (balance_of(old(self).address@, *key).unwrap() - amount) as u64,
                        )
                    }
                    &&& has_key(old(self).address@, *key) && amount == balance_of(
                        old(self).address@,
                        *key,
                    ).unwrap() ==> final(self).address@ == old(self).address@.remove(
                        first_position(old(self).address@, *key),
                    )
                    &&& !has_key(old(self).address@, *key) ==> final(self).address@ == old(self).address@
                    &&& forall|other: Pubkey|
                        other != *key ==> #[trigger] balance_of(final(self).address@, other)
                            == balance_of(old(self).address@, other)
                },
                Err(e) => {
                    &&& e == VaultError::SubtractionAtUpdateUserUnderflow
                    &&& debit_underflows(old(self).address@, *key, amount)
                    &&& has_key(old(self).address@, *key)
                    &&& balance_of(old(self).address@, *key).unwrap() < amount
                    &&& final(self).address@ == old(self).address@
                },
            },
    {
        proof {
            if keys_distinct(self.address@) {
                lemma_operations_keep_keys_distinct(self.address@, *key, amount);
            }
            if has_key(self.address@, *key) {
                lemma_first_position(self.address@, *key);
                if !debit_underflows(self.address@, *key, amount) {
                    lemma_debit_balance(self.address@, *key, amount);
                }
            }
        }
        match self.position(key) {
            Some(p) => {
                let (owner, current) = self.address[p];
                match current.checked_sub(amount) {
                    Some(rest) => {
                        if rest == 0 {
                            self.address.remove(p);
                        } else {
                            self.address.set(p, (owner, rest));
                        }
                        Ok(())
                    },
                    None => Err(VaultError::SubtractionAtUpdateUserUnderflow),
                }
            },
            None => Ok(()),
        }
    }
}

} // verus!
