//! A repository in memory: the reference implementation of the persistence
//! surface.

use vstd::prelude::*;
use crate::errors::{ChacrabError, ErrorKind};
use crate::models::{AuthRecord, SyncTombstone, VaultItem, VaultItemView};
use crate::repository::{
    distinct_items, distinct_tombstones, holds_item, holds_tombstone, items_map,
    lemma_items_map, lemma_tombstones_map, newest_first, position_of_item,
    position_of_tombstone, tombstones_map, RepositoryState, VaultRepository,
};

verus! {

proof fn lemma_items_without(before: Seq<VaultItem>, at: int)
    requires
        distinct_items(before),
        newest_first(before),
        0 <= at < before.len(),
    ensures
        distinct_items(before.remove(at)),
        newest_first(before.remove(at)),
        !holds_item(before.remove(at), before[at].id),
        items_map(before.remove(at)) == items_map(before).remove(before[at].id),
{
    let after = before.remove(at);
    let id = before[at].id;
    assert forall|i: int, j: int| 0 <= i < j < after.len() implies #[trigger] after[i].id
        != #[trigger] after[j].id && !after[j].updated_at.is_after(after[i].updated_at) by {
        let a = if i < at { i } else { i + 1 };
        let b = if j < at { j } else { j + 1 };
        assert(after[i] == before[a]);
        assert(after[j] == before[b]);
    }
    assert(!holds_item(after, id)) by {
        if holds_item(after, id) {
            let k = choose|k: int| 0 <= k < after.len() && #[trigger] after[k].id == id;
            let a = if k < at { k } else { k + 1 };
            assert(after[k] == before[a]);
            assert(before[a].id == before[at].id);
        }
    }
    lemma_items_map(before);
    lemma_items_map(after);
    assert forall|key: u128| items_map(after).contains_key(key) <==> items_map(before).remove(
        id,
    ).contains_key(key) by {
        if holds_item(after, key) {
            let k = choose|k: int| 0 <= k < after.len() && #[trigger] after[k].id == key;
            let a = if k < at { k } else { k + 1 };
            assert(after[k] == before[a]);
            assert(before[a].id == key);
        }
        if key != id && holds_item(before, key) {
            let a = choose|a: int| 0 <= a < before.len() && #[trigger] before[a].id == key;
            let k = if a < at { a } else { a - 1 };
            assert(after[k] == before[a]);
            assert(after[k].id == key);
        }
    }
    assert forall|key: u128| items_map(after).contains_key(key) implies items_map(after)[key]
        == items_map(before).remove(id)[key] by {
        let k = choose|k: int| 0 <= k < after.len() && #[trigger] after[k].id == key;
        let a = if k < at { k } else { k + 1 };
        assert(after[k] == before[a]);
        assert(items_map(before)[before[a].id] == before[a]@);
        assert(items_map(after)[after[k].id] == after[k]@);
    }
    assert(items_map(after) =~= items_map(before).remove(id));
}

proof fn lemma_items_with(before: Seq<VaultItem>, at: int, item: VaultItem)
    requires
        distinct_items(before),
        !holds_item(before, item.id),
        0 <= at <= before.len(),
    ensures
        distinct_items(before.insert(at, item)),
        items_map(before.insert(at, item)) == items_map(before).insert(item.id, item@),
{
    let after = before.insert(at, item);
    let id = item.id;
    assert forall|i: int, j: int| 0 <= i < j < after.len() implies #[trigger] after[i].id
        != #[trigger] after[j].id by {
        let a = if i < at { i } else { i - 1 };
        let b = if j < at { j } else { j - 1 };
        if i != at {
            assert(after[i] == before[a]);
        }
        if j != at {
            assert(after[j] == before[b]);
        }
        if i == at {
            assert(before[b].id != id);
        }
        if j == at {
            assert(before[a].id != id);
        }
    }
    lemma_items_map(before);
    lemma_items_map(after);
    assert(after[at] == item);
    assert forall|key: u128| items_map(after).contains_key(key) <==> items_map(before).insert(
        id,
        item@,
    ).contains_key(key) by {
        if holds_item(after, key) && key != id {
            let k = choose|k: int| 0 <= k < after.len() && #[trigger] after[k].id == key;
            let a = if k < at { k } else { k - 1 };
            assert(after[k] == before[a]);
            assert(before[a].id == key);
        }
        if holds_item(before, key) {
            let a = choose|a: int| 0 <= a < before.len() && #[trigger] before[a].id == key;
            let k = if a < at { a } else { a + 1 };
            assert(after[k] == before[a]);
            assert(after[k].id == key);
        }
        if key == id {
            assert(after[at].id == key);
        }
    }
    assert forall|key: u128| items_map(after).contains_key(key) implies items_map(after)[key]
        == items_map(before).insert(id, item@)[key] by {
        if key == id {
            assert(items_map(after)[after[at].id] == after[at]@);
        } else {
            let k = choose|k: int| 0 <= k < after.len() && #[trigger] after[k].id == key;
            let a = if k < at { k } else { k - 1 };
            assert(after[k] == before[a]);
            assert(items_map(before)[before[a].id] == before[a]@);
            assert(items_map(after)[after[k].id] == after[k]@);
        }
    }
    assert(items_map(after) =~= items_map(before).insert(id, item@));
}

proof fn lemma_tombstones_without(before: Seq<SyncTombstone>, at: int)
    requires
        distinct_tombstones(before),
        0 <= at < before.len(),
    ensures
        distinct_tombstones(before.remove(at)),
        !holds_tombstone(before.remove(at), before[at].id),
        tombstones_map(before.remove(at)) == tombstones_map(before).remove(before[at].id),
{
    let after = before.remove(at);
    let id = before[at].id;
    assert forall|i: int, j: int| 0 <= i < j < after.len() implies #[trigger] after[i].id
        != #[trigger] after[j].id by {
        let a = if i < at { i } else { i + 1 };
        let b = if j < at { j } else { j + 1 };
        assert(after[i] == before[a]);
        assert(after[j] == before[b]);
    }
    assert(!holds_tombstone(after, id)) by {
        if holds_tombstone(after, id) {
            let k = choose|k: int| 0 <= k < after.len() && #[trigger] after[k].id == id;
            let a = if k < at { k } else { k + 1 };
            assert(after[k] == before[a]);
            assert(before[a].id == before[at].id);
        }
    }
    lemma_tombstones_map(before);
    lemma_tombstones_map(after);
    assert forall|key: u128| tombstones_map(after).contains_key(key) <==> tombstones_map(
        before,
    ).remove(id).contains_key(key) by {
        if holds_tombstone(after, key) {
            let k = choose|k: int| 0 <= k < after.len() && #[trigger] after[k].id == key;
            let a = if k < at { k } else { k + 1 };
            assert(after[k] == before[a]);
            assert(before[a].id == key);
        }
        if key != id && holds_tombstone(before, key) {
            let a = choose|a: int| 0 <= a < before.len() && #[trigger] before[a].id == key;
            let k = if a < at { a } else { a - 1 };
            assert(after[k] == before[a]);
            assert(after[k].id == key);
        }
    }
    assert forall|key: u128| tombstones_map(after).contains_key(key) implies tombstones_map(
        after,
    )[key] == tombstones_map(before).remove(id)[key] by {
        let k = choose|k: int| 0 <= k < after.len() && #[trigger] after[k].id == key;
        let a = if k < at { k } else { k + 1 };
        assert(after[k] == before[a]);
        assert(tombstones_map(before)[before[a].id] == before[a]);
        assert(tombstones_map(after)[after[k].id] == after[k]);
    }
    assert(tombstones_map(after) =~= tombstones_map(before).remove(id));
}

proof fn lemma_tombstones_with(before: Seq<SyncTombstone>, tombstone: SyncTombstone)
    requires
        distinct_tombstones(before),
        !holds_tombstone(before, tombstone.id),
    ensures
        distinct_tombstones(before.push(tombstone)),
        tombstones_map(before.push(tombstone)) == tombstones_map(before).insert(
            tombstone.id,
            tombstone,
        ),
{
    let after = before.push(tombstone);
    let id = tombstone.id;
    let at = before.len() as int;
    assert forall|i: int, j: int| 0 <= i < j < after.len() implies #[trigger] after[i].id
        != #[trigger] after[j].id by {
        assert(after[i] == before[i]);
        if j < at {
            assert(after[j] == before[j]);
        } else {
            assert(before[i].id != id);
        }
    }
    lemma_tombstones_map(before);
    lemma_tombstones_map(after);
    assert(after[at] == tombstone);
    assert forall|key: u128| tombstones_map(after).contains_key(key) <==> tombstones_map(
        before,
    ).insert(id, tombstone).contains_key(key) by {
        if holds_tombstone(after, key) && key != id {
            let k = choose|k: int| 0 <= k < after.len() && #[trigger] after[k].id == key;
            assert(after[k] == before[k]);
            assert(before[k].id == key);
        }
        if holds_tombstone(before, key) {
            let a = choose|a: int| 0 <= a < before.len() && #[trigger] before[a].id == key;
            assert(after[a] == before[a]);
            assert(after[a].id == key);
        }
        if key == id {
            assert(after[at].id == key);
        }
    }
    assert forall|key: u128| tombstones_map(after).contains_key(key) implies tombstones_map(
        after,
    )[key] == tombstones_map(before).insert(id, tombstone)[key] by {
        if key == id {
            assert(tombstones_map(after)[after[at].id] == after[at]);
        } else {
            let k = choose|k: int| 0 <= k < after.len() && #[trigger] after[k].id == key;
            assert(after[k] == before[k]);
            assert(tombstones_map(before)[before[k].id] == before[k]);
            assert(tombstones_map(after)[after[k].id] == after[k]);
        }
    }
    assert(tombstones_map(after) =~= tombstones_map(before).insert(id, tombstone));
}

/// Stores `item` in `items`, in place of an item with its identifier, and
/// keeps the newest item first.
fn upsert_item_in(items: &mut Vec<VaultItem>, item: &VaultItem)
    requires
        distinct_items(old(items)@),
        newest_first(old(items)@),
    ensures
        distinct_items(final(items)@),
        newest_first(final(items)@),
        items_map(final(items)@) == items_map(old(items)@).insert(item.id, item@),
{
    let _ = remove_item_in(items, item.id);
    let ghost middle = items@;
    let mut at: usize = 0;
    while at < items.len() && items[at].updated_at.later_than(&item.updated_at)
        invariant
            at <= items.len(),
            items@ == middle,
            forall|k: int| 0 <= k < at ==> (#[trigger] middle[k]).updated_at.is_after(item.updated_at),
        decreases items.len() - at,
    {
        at += 1;
    }
    let copy = item.clone();
    items.insert(at, copy);
    proof {
        let after = items@;
        assert(after == middle.insert(at as int, copy));
        lemma_items_with(middle, at as int, copy);
        assert forall|i: int, j: int| 0 <= i < j < after.len() implies !(#[trigger] after[j]).updated_at.is_after(
            (#[trigger] after[i]).updated_at,
        ) by {
            let a = if i < at { i } else { i - 1 };
            let b = if j < at { j } else { j - 1 };
            if i != at {
                assert(after[i] == middle[a]);
            }
            if j != at {
                assert(after[j] == middle[b]);
            }
            if j == at {
                assert(middle[a].updated_at.is_after(item.updated_at));
            }
            if i == at && at < middle.len() {
                assert(!middle[at as int].updated_at.is_after(item.updated_at));
                if b > at {
                    assert(!middle[b].updated_at.is_after(middle[at as int].updated_at));
                }
            }
        }
        assert(items_map(after) =~= items_map(old(items)@).insert(item.id, item@));
    }
}

/// Removes the item `id` from `items`, if it is there.
fn remove_item_in(items: &mut Vec<VaultItem>, id: u128) -> (removed: bool)
    requires
        distinct_items(old(items)@),
        newest_first(old(items)@),
    ensures
        distinct_items(final(items)@),
        newest_first(final(items)@),
        removed == holds_item(old(items)@, id),
        !holds_item(final(items)@, id),
        items_map(final(items)@) == items_map(old(items)@).remove(id),
{
    let ghost start = items@;
    let found = position_of_item(items, id);
    match found {
        Some(at) => {
            let _ = items.remove(at);
            proof {
                lemma_items_without(start, at as int);
            }
            true
        },
        None => {
            proof {
                lemma_items_map(start);
                assert(items_map(start) =~= items_map(start).remove(id));
            }
            false
        },
    }
}

/// Stores `tombstone` in `tombstones`, in place of one with its
/// identifier.
fn upsert_tombstone_in(tombstones: &mut Vec<SyncTombstone>, tombstone: &SyncTombstone)
    requires
        distinct_tombstones(old(tombstones)@),
    ensures
        distinct_tombstones(final(tombstones)@),
        tombstones_map(final(tombstones)@) == tombstones_map(old(tombstones)@).insert(
            tombstone.id,
            *tombstone,
        ),
{
    let _ = remove_tombstone_in(tombstones, tombstone.id);
    let ghost middle = tombstones@;
    tombstones.push(*tombstone);
    proof {
        lemma_tombstones_with(middle, *tombstone);
        assert(tombstones_map(tombstones@) =~= tombstones_map(old(tombstones)@).insert(
            tombstone.id,
            *tombstone,
        ));
    }
}

/// Removes the tombstone `id` from `tombstones`, if it is there.
fn remove_tombstone_in(tombstones: &mut Vec<SyncTombstone>, id: u128) -> (removed: bool)
    requires
        distinct_tombstones(old(tombstones)@),
    ensures
        distinct_tombstones(final(tombstones)@),
        removed == holds_tombstone(old(tombstones)@, id),
        !holds_tombstone(final(tombstones)@, id),
        tombstones_map(final(tombstones)@) == tombstones_map(old(tombstones)@).remove(id),
{
    let ghost start = tombstones@;
    let found = position_of_tombstone(tombstones, id);
    match found {
        Some(at) => {
            let _ = tombstones.remove(at);
            proof {
                lemma_tombstones_without(start, at as int);
            }
            true
        },
        None => {
            proof {
                lemma_tombstones_map(start);
                assert(tombstones_map(start) =~= tombstones_map(start).remove(id));
            }
            false
        },
    }
}

/// A repository that keeps everything in memory.
#[derive(Debug)]
pub struct MemoryRepository {
    items: Vec<VaultItem>,
    tombstones: Vec<SyncTombstone>,
    auth: Option<AuthRecord>,
}

impl MemoryRepository {
    #[verifier::type_invariant]
    spec fn ordered(self) -> bool {
        &&& distinct_items(self.items@)
        &&& newest_first(self.items@)
        &&& distinct_tombstones(self.tombstones@)
    }

    /// An empty repository.
    pub fn new() -> (repository: Self)
        ensures
            repository.state().items == Map::<u128, VaultItemView>::empty(),
            repository.state().tombstones == Map::<u128, SyncTombstone>::empty(),
            repository.state().auth is None,
    {
        let repository = MemoryRepository { items: Vec::new(), tombstones: Vec::new(), auth: None };
        assert(repository.state().items =~= Map::<u128, VaultItemView>::empty());
        assert(repository.state().tombstones =~= Map::<u128, SyncTombstone>::empty());
        repository
    }
}

impl VaultRepository for MemoryRepository {
    closed spec fn state(&self) -> RepositoryState {
        RepositoryState {
            items: items_map(self.items@),
            tombstones: tombstones_map(self.tombstones@),
            auth: match self.auth {
                Some(auth) => Some(auth@),
                None => None,
            },
        }
    }

    fn init(&mut self) -> (r: Result<(), ChacrabError>)
        ensures
            r is Ok,
    {
        Ok(())
    }

    fn upsert_item(&mut self, item: &VaultItem) -> (r: Result<(), ChacrabError>)
        ensures
            r is Ok,
    {
        proof {
            use_type_invariant(&*self);
        }
        let mut items: Vec<VaultItem> = Vec::new();
        core::mem::swap(&mut self.items, &mut items);
        upsert_item_in(&mut items, item);
        self.items = items;
        Ok(())
    }

    fn list_items(&self) -> (r: Result<Vec<VaultItem>, ChacrabError>)
        ensures
            r is Ok,
    {
        proof {
            use_type_invariant(self);
            lemma_items_map(self.items@);
        }
        let mut listed: Vec<VaultItem> = Vec::new();
        let mut i: usize = 0;
        while i < self.items.len()
            invariant
                i <= self.items.len(),
                listed.len() == i,
                forall|k: int| 0 <= k < i ==> (#[trigger] listed[k])@ == self.items[k]@ && listed[k].id
                    == self.items[k].id && listed[k].updated_at == self.items[k].updated_at,
            decreases self.items.len() - i,
        {
            listed.push(self.items[i].clone());
            i += 1;
        }
        proof {
            let stored = items_map(self.items@);
            assert forall|id: u128| #[trigger] stored.contains_key(id) implies exists|k: int|
                0 <= k < listed@.len() && #[trigger] listed@[k].id == id by {
                let k = choose|k: int| 0 <= k < self.items@.len() && #[trigger] self.items@[k].id == id;
                assert(listed@[k].id == id);
            }
            assert forall|k: int| 0 <= k < listed@.len() implies stored.contains_key(
                #[trigger] listed@[k].id,
            ) && stored[listed@[k].id] == listed@[k]@ by {
                assert(stored[self.items@[k].id] == self.items@[k]@);
            }
        }
        Ok(listed)
    }

    fn get_item(&self, id: u128) -> (r: Result<VaultItem, ChacrabError>)
        ensures
            self.state().items.contains_key(id) ==> r is Ok,
            r matches Err(e) ==> e@ == ErrorKind::NotFound,
    {
        proof {
            use_type_invariant(self);
            lemma_items_map(self.items@);
        }
        match position_of_item(&self.items, id) {
            Some(at) => Ok(self.items[at].clone()),
            None => Err(ChacrabError::NotFound),
        }
    }

    fn delete_item(&mut self, id: u128) -> (r: Result<(), ChacrabError>)
        ensures
            old(self).state().items.contains_key(id) ==> r is Ok,
            r matches Err(e) ==> e@ == ErrorKind::NotFound,
    {
        proof {
            use_type_invariant(&*self);
        }
        let mut items: Vec<VaultItem> = Vec::new();
        core::mem::swap(&mut self.items, &mut items);
        let ghost before = items@;
        let removed = remove_item_in(&mut items, id);
        proof {
            if !removed {
                lemma_items_map(before);
                assert(items_map(items@) =~= items_map(before));
            }
        }
        self.items = items;
        if removed {
            Ok(())
        } else {
            Err(ChacrabError::NotFound)
        }
    }

    fn upsert_tombstone(&mut self, tombstone: &SyncTombstone) -> (r: Result<(), ChacrabError>)
        ensures
            r is Ok,
    {
        proof {
            use_type_invariant(&*self);
        }
        let mut tombstones: Vec<SyncTombstone> = Vec::new();
        core::mem::swap(&mut self.tombstones, &mut tombstones);
        upsert_tombstone_in(&mut tombstones, tombstone);
        self.tombstones = tombstones;
        Ok(())
    }

    fn list_tombstones(&self) -> (r: Result<Vec<SyncTombstone>, ChacrabError>)
        ensures
            r is Ok,
    {
        proof {
            use_type_invariant(self);
            lemma_tombstones_map(self.tombstones@);
        }
        let mut listed: Vec<SyncTombstone> = Vec::new();
        let mut i: usize = 0;
        while i < self.tombstones.len()
            invariant
                i <= self.tombstones.len(),
                listed.len() == i,
                forall|k: int| 0 <= k < i ==> #[trigger] listed[k] == self.tombstones[k],
            decreases self.tombstones.len() - i,
        {
            listed.push(self.tombstones[i]);
            i += 1;
        }
        assert(listed@ =~= self.tombstones@);
        Ok(listed)
    }

    fn delete_tombstone(&mut self, id: u128) -> (r: Result<(), ChacrabError>)
        ensures
            r is Ok,
    {
        proof {
            use_type_invariant(&*self);
        }
        let mut tombstones: Vec<SyncTombstone> = Vec::new();
        core::mem::swap(&mut self.tombstones, &mut tombstones);
        let _ = remove_tombstone_in(&mut tombstones, id);
        self.tombstones = tombstones;
        Ok(())
    }

    fn get_auth_record(&self) -> (r: Result<Option<AuthRecord>, ChacrabError>)
        ensures
            r is Ok,
    {
        match &self.auth {
            Some(auth) => Ok(Some(auth.clone())),
            None => Ok(None),
        }
    }

    fn set_auth_record(&mut self, auth: &AuthRecord) -> (r: Result<(), ChacrabError>)
        ensures
            r is Ok,
    {
        proof {
            use_type_invariant(&*self);
        }
        self.auth = Some(auth.clone());
        Ok(())
    }
}

} // verus!
