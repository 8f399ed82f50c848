//! Keyed storage: a list of accounts in which no address occurs twice, seen
//! as a finite map from address to account.

use vstd::prelude::*;
use crate::address::Address;
use crate::ledger::account::{Account, AccountData, Asset};
use crate::ledger::model::{lemma_total_insert, total};

verus! {

/// One stored account with the address that it is stored at.
#[derive(Clone, Copy, Debug)]
pub struct Entry {
    pub key: Address,
    pub account: Account,
}

/// Whether some entry is stored at `key`.
pub open spec fn has_key(entries: Seq<Entry>, key: Address) -> bool {
    exists|i: int| 0 <= i < entries.len() && (#[trigger] entries[i]).key == key
}

/// The position of an entry stored at `key`.
pub open spec fn slot_of(entries: Seq<Entry>, key: Address) -> int {
    choose|i: int| 0 <= i < entries.len() && (#[trigger] entries[i]).key == key
}

/// No address occurs twice.
pub open spec fn keys_unique(entries: Seq<Entry>) -> bool {
    forall|i: int, j: int|
        0 <= i < j < entries.len() ==> (#[trigger] entries[i]).key != (#[trigger] entries[j]).key
}

/// The map that a list of entries stands for.
pub open spec fn map_of(entries: Seq<Entry>) -> Map<Address, Account> {
    Map::new(
        |key: Address| has_key(entries, key),
        |key: Address| entries[slot_of(entries, key)].account,
    )
}

/// In a list without repeated addresses, each entry is what the map holds at
/// its address.
pub proof fn lemma_entry_in_map(entries: Seq<Entry>, i: int)
    requires
        keys_unique(entries),
        0 <= i < entries.len(),
    ensures
        has_key(entries, entries[i].key),
        slot_of(entries, entries[i].key) == i,
        map_of(entries).contains_key(entries[i].key),
        map_of(entries)[entries[i].key] == entries[i].account,
{
    let j = slot_of(entries, entries[i].key);
    assert(entries[j].key == entries[i].key);
    if j < i {
        assert(entries[j].key != entries[i].key);
    } else if i < j {
        assert(entries[i].key != entries[j].key);
    }
}

/// Appending an entry at an unused address inserts it into the map.
pub proof fn lemma_map_of_push(entries: Seq<Entry>, entry: Entry)
    requires
        keys_unique(entries),
        !has_key(entries, entry.key),
    ensures
        keys_unique(entries.push(entry)),
        map_of(entries.push(entry)) == map_of(entries).insert(entry.key, entry.account),
{
    let after = entries.push(entry);
    let last = entries.len() as int;
    assert forall|i: int, j: int| 0 <= i < j < after.len() implies (#[trigger] after[i]).key != (
    #[trigger] after[j]).key by {
        if j == last {
            assert(entries[i].key != entry.key);
        } else {
            assert(entries[i].key != entries[j].key);
        }
    }
    assert forall|key: Address| has_key(after, key) <==> (key == entry.key || has_key(
        entries,
        key,
    )) by {
        if has_key(after, key) {
            let i = slot_of(after, key);
            if i < last {
                assert(entries[i].key == key);
            }
        }
        if has_key(entries, key) {
            let i = slot_of(entries, key);
            assert(after[i].key == key);
        }
        if key == entry.key {
            assert(after[last].key == key);
        }
    }
    assert forall|key: Address| has_key(after, key) implies map_of(after)[key] == map_of(
        entries,
    ).insert(entry.key, entry.account)[key] by {
        if key == entry.key {
            lemma_entry_in_map(after, last);
        } else {
            let i = slot_of(entries, key);
            lemma_entry_in_map(entries, i);
            assert(after[i] == entries[i]);
            lemma_entry_in_map(after, i);
        }
    }
    assert(map_of(after) =~= map_of(entries).insert(entry.key, entry.account));
}

/// Replacing the account of an entry replaces it in the map.
pub proof fn lemma_map_of_update(entries: Seq<Entry>, i: int, account: Account)
    requires
        keys_unique(entries),
        0 <= i < entries.len(),
    ensures
        keys_unique(entries.update(i, Entry { key: entries[i].key, account })),
        map_of(entries.update(i, Entry { key: entries[i].key, account })) == map_of(
            entries,
        ).insert(entries[i].key, account),
{
    let after = entries.update(i, Entry { key: entries[i].key, account });
    assert forall|a: int, b: int| 0 <= a < b < after.len() implies (#[trigger] after[a]).key != (
    #[trigger] after[b]).key by {
        assert(entries[a].key != entries[b].key);
    }
    assert forall|key: Address| has_key(after, key) <==> has_key(entries, key) by {
        if has_key(after, key) {
            let j = slot_of(after, key);
            assert(entries[j].key == key);
        }
        if has_key(entries, key) {
            let j = slot_of(entries, key);
            assert(after[j].key == key);
        }
    }
    lemma_entry_in_map(entries, i);
    assert forall|key: Address| has_key(after, key) implies map_of(after)[key] == map_of(
        entries,
    ).insert(entries[i].key, account)[key] by {
        let j = slot_of(entries, key);
        lemma_entry_in_map(entries, j);
        assert(after[j].key == key);
        lemma_entry_in_map(after, j);
    }
    assert(map_of(after) =~= map_of(entries).insert(entries[i].key, account));
}

/// Taking an entry out of the list removes its address from the map.
pub proof fn lemma_map_of_remove(entries: Seq<Entry>, i: int)
    requires
        keys_unique(entries),
        0 <= i < entries.len(),
    ensures
        keys_unique(entries.remove(i)),
        map_of(entries.remove(i)) == map_of(entries).remove(entries[i].key),
{
    let after = entries.remove(i);
    assert forall|a: int, b: int| 0 <= a < b < after.len() implies (#[trigger] after[a]).key != (
    #[trigger] after[b]).key by {
        let a0 = if a < i { a } else { a + 1 };
        let b0 = if b < i { b } else { b + 1 };
        assert(after[a] == entries[a0]);
        assert(after[b] == entries[b0]);
        assert(entries[a0].key != entries[b0].key);
    }
    assert forall|key: Address| has_key(after, key) <==> (key != entries[i].key && has_key(
        entries,
        key,
    )) by {
        if has_key(after, key) {
            let j = slot_of(after, key);
            let j0 = if j < i { j } else { j + 1 };
            assert(after[j] == entries[j0]);
            assert(entries[j0].key == key);
            if j0 < i {
                assert(entries[j0].key != entries[i].key);
            } else {
                assert(entries[i].key != entries[j0].key);
            }
        }
        if key != entries[i].key && has_key(entries, key) {
            let j0 = slot_of(entries, key);
            let j = if j0 < i { j0 } else { j0 - 1 };
            assert(after[j] == entries[j0]);
        }
    }
    assert forall|key: Address| has_key(after, key) implies map_of(after)[key] == map_of(
        entries,
    ).remove(entries[i].key)[key] by {
        let j0 = slot_of(entries, key);
        lemma_entry_in_map(entries, j0);
        let j = if j0 < i { j0 } else { j0 - 1 };
        assert(after[j] == entries[j0]);
        lemma_entry_in_map(after, j);
    }
    assert(map_of(after) =~= map_of(entries).remove(entries[i].key));
}

/// The map of an initial part of the list grows by one entry at a time.
pub proof fn lemma_map_of_take(entries: Seq<Entry>, n: int)
    requires
        keys_unique(entries),
        0 <= n < entries.len(),
    ensures
        keys_unique(entries.take(n)),
        !map_of(entries.take(n)).contains_key(entries[n].key),
        map_of(entries.take(n + 1)) == map_of(entries.take(n)).insert(
            entries[n].key,
            entries[n].account,
        ),
{
    let part = entries.take(n);
    assert forall|a: int, b: int| 0 <= a < b < part.len() implies (#[trigger] part[a]).key != (
    #[trigger] part[b]).key by {
        assert(entries[a].key != entries[b].key);
    }
    if has_key(part, entries[n].key) {
        let j = slot_of(part, entries[n].key);
        assert(entries[j].key != entries[n].key);
    }
    lemma_map_of_push(part, entries[n]);
    assert(part.push(entries[n]) =~= entries.take(n + 1));
}

/// The accounts of a ledger, each stored under its address.
#[derive(Debug)]
pub struct Store {
    entries: Vec<Entry>,
}

impl View for Store {
    type V = Map<Address, Account>;

    /// The map from each address in use to the account stored there.
    closed spec fn view(&self) -> Map<Address, Account> {
        map_of(self.entries@)
    }
}

impl Store {
    /// No address is stored twice.
    pub closed spec fn wf(&self) -> bool {
        keys_unique(self.entries@)
    }

    /// An empty store.
    pub fn new() -> (store: Store)
        ensures
            store.wf(),
            store@ == Map::<Address, Account>::empty(),
    {
        let store = Store { entries: Vec::new() };
        assert(store@ =~= Map::<Address, Account>::empty());
        store
    }

    /// The position of the entry stored at `key`, if there is one.
    fn find(&self, key: &Address) -> (found: Option<usize>)
        requires
            self.wf(),
        ensures
            match found {
                Some(i) => i < self.entries@.len() && self.entries@[i as int].key == *key,
                None => !has_key(self.entries@, *key),
            },
    {
        let mut i: usize = 0;
        while i < self.entries.len()
            invariant
                i <= self.entries@.len(),
                forall|j: int| 0 <= j < i ==> (#[trigger] self.entries@[j]).key != *key,
            decreases self.entries@.len() - i,
        {
            if self.entries[i].key == *key {
                return Some(i);
            }
            i += 1;
        }
        None
    }

    /// Whether an account is stored at `key`.
    pub fn contains(&self, key: &Address) -> (yes: bool)
        requires
            self.wf(),
        ensures
            yes == self@.contains_key(*key),
    {
        match self.find(key) {
            Some(i) => {
                proof {
                    lemma_entry_in_map(self.entries@, i as int);
                }
                true
            },
            None => false,
        }
    }

    /// The account stored at `key`, if there is one.
    pub fn get(&self, key: &Address) -> (found: Option<Account>)
        requires
            self.wf(),
        ensures
            found == (if self@.contains_key(*key) {
                Some(self@[*key])
            } else {
                None
            }),
    {
        match self.find(key) {
            Some(i) => {
                proof {
                    lemma_entry_in_map(self.entries@, i as int);
                }
                Some(self.entries[i].account)
            },
            None => None,
        }
    }

    /// Stores `account` at the unused address `key`.
    pub fn insert(&mut self, key: Address, account: Account)
        requires
            old(self).wf(),
            !old(self)@.contains_key(key),
        ensures
            final(self).wf(),
            final(self)@ == old(self)@.insert(key, account),
    {
        proof {
            lemma_map_of_push(self.entries@, Entry { key, account });
        }
        self.entries.push(Entry { key, account });
    }

    /// Replaces the account stored at `key` by `account`.
    pub fn replace(&mut self, key: &Address, account: Account)
        requires
            old(self).wf(),
            old(self)@.contains_key(*key),
        ensures
            final(self).wf(),
            final(self)@ == old(self)@.insert(*key, account),
    {
        match self.find(key) {
            Some(i) => {
                proof {
                    lemma_map_of_update(self.entries@, i as int, account);
                }
                self.entries.set(i, Entry { key: *key, account });
            },
            None => {
                assert(false);
            },
        }
    }

    /// Takes the account stored at `key` out of the store.
    pub fn remove(&mut self, key: &Address)
        requires
            old(self).wf(),
            old(self)@.contains_key(*key),
        ensures
            final(self).wf(),
            final(self)@ == old(self)@.remove(*key),
    {
        match self.find(key) {
            Some(i) => {
                proof {
                    lemma_map_of_remove(self.entries@, i as int);
                }
                self.entries.remove(i);
            },
            None => {
                assert(false);
            },
        }
    }

    /// The sum of what all stored accounts hold of `asset`.
    pub fn total(&self, asset: &Asset) -> (sum: u128)
        requires
            self.wf(),
        ensures
            sum == total(self@, *asset),
    {
        let mut sum: u128 = 0;
        let mut i: usize = 0;
        proof {
            assert(map_of(self.entries@.take(0)).dom() =~= Set::empty());
        }
        while i < self.entries.len()
            invariant
                self.wf(),
                i <= self.entries@.len(),
                map_of(self.entries@.take(i as int)).dom().finite(),
                sum == total(map_of(self.entries@.take(i as int)), *asset),
                sum <= i * 0xffff_ffff_ffff_ffff,
            decreases self.entries@.len() - i,
        {
            let held: u64 = holding_of(&self.entries[i].account, asset);
            proof {
                lemma_map_of_take(self.entries@, i as int);
                lemma_total_insert(
                    map_of(self.entries@.take(i as int)),
                    *asset,
                    self.entries@[i as int].key,
                    self.entries@[i as int].account,
                );
                assert(sum + held <= (i + 1) * 0xffff_ffff_ffff_ffff) by (nonlinear_arith)
                    requires
                        sum <= i * 0xffff_ffff_ffff_ffff,
                        held <= 0xffff_ffff_ffff_ffff,
                ;
                assert((i + 1) * 0xffff_ffff_ffff_ffff <= u128::MAX) by (nonlinear_arith)
                    requires
                        i <= 0xffff_ffff_ffff_ffff,
                ;
            }
            sum = sum + held as u128;
            i += 1;
        }
        assert(self.entries@.take(i as int) =~= self.entries@);
        sum
    }
}

/// How much of `asset` the account holds.
pub fn holding_of(account: &Account, asset: &Asset) -> (held: u64)
    ensures
        held == account.holding(*asset),
{
    match asset {
        Asset::Native => account.funds,
        Asset::Token(mint) => match &account.data {
            AccountData::Token(t) => if t.mint == *mint {
                t.amount
            } else {
                0
            },
            AccountData::Vault(t) => if t.mint == *mint {
                t.amount
            } else {
                0
            },
            _ => 0,
        },
    }
}

} // verus!
