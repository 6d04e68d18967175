//! The persistence surface that the vault service and the sync engine
//! consume, stated over a mathematical model of what a repository holds.

use vstd::prelude::*;
use crate::errors::{ChacrabError, ErrorKind};
use crate::models::{AuthRecord, AuthRecordView, SyncTombstone, VaultItem, VaultItemView};

verus! {

/// What a repository holds: the items and the tombstones by identifier, and
/// the authentication record if the vault was initialized.
pub struct RepositoryState {
    pub items: Map<u128, VaultItemView>,
    pub tombstones: Map<u128, SyncTombstone>,
    pub auth: Option<AuthRecordView>,
}

impl RepositoryState {
    /// The state with `item` stored under its identifier.
    pub open spec fn with_item(self, item: VaultItemView) -> RepositoryState {
        RepositoryState { items: self.items.insert(item.id, item), ..self }
    }

    /// The state without an item `id`.
    pub open spec fn without_item(self, id: u128) -> RepositoryState {
        RepositoryState { items: self.items.remove(id), ..self }
    }

    /// The state with `tombstone` stored under its identifier.
    pub open spec fn with_tombstone(self, tombstone: SyncTombstone) -> RepositoryState {
        RepositoryState { tombstones: self.tombstones.insert(tombstone.id, tombstone), ..self }
    }

    /// The state without a tombstone `id`.
    pub open spec fn without_tombstone(self, id: u128) -> RepositoryState {
        RepositoryState { tombstones: self.tombstones.remove(id), ..self }
    }

    /// The state with `auth` as its authentication record.
    pub open spec fn with_auth(self, auth: AuthRecordView) -> RepositoryState {
        RepositoryState { auth: Some(auth), ..self }
    }

    /// No identifier has both an item and a tombstone.
    pub open spec fn at_rest(self) -> bool {
        forall|id: u128| !(self.items.contains_key(id) && self.tombstones.contains_key(id))
    }
}

/// Every item of the replica can be a ciphertext: none is empty and each
/// nonce has twelve bytes.
pub open spec fn blobs_are_valid(side: RepositoryState) -> bool {
    forall|id: u128| #[trigger]
        side.items.contains_key(id) ==> side.items[id].blob_is_valid()
}

/// `listed` holds every stored item exactly once, each under its own
/// identifier.
pub open spec fn lists_items(listed: Seq<VaultItem>, stored: Map<u128, VaultItemView>) -> bool {
    &&& forall|i: int|
        0 <= i < listed.len() ==> stored.contains_key(#[trigger] listed[i].id) && stored[listed[i].id]
            == listed[i]@
    &&& forall|i: int, j: int|
        0 <= i < j < listed.len() ==> #[trigger] listed[i].id != #[trigger] listed[j].id
    &&& forall|id: u128| #[trigger]
        stored.contains_key(id) ==> exists|i: int| 0 <= i < listed.len() && #[trigger] listed[i].id == id
}

/// `listed` holds every stored tombstone exactly once, each under its own
/// identifier.
pub open spec fn lists_tombstones(
    listed: Seq<SyncTombstone>,
    stored: Map<u128, SyncTombstone>,
) -> bool {
    &&& forall|i: int|
        0 <= i < listed.len() ==> stored.contains_key(#[trigger] listed[i].id) && stored[listed[i].id]
            == listed[i]
    &&& forall|i: int, j: int|
        0 <= i < j < listed.len() ==> #[trigger] listed[i].id != #[trigger] listed[j].id
    &&& forall|id: u128| #[trigger]
        stored.contains_key(id) ==> exists|i: int| 0 <= i < listed.len() && #[trigger] listed[i].id == id
}

/// No two items of `listed` share an identifier.
pub open spec fn distinct_items(listed: Seq<VaultItem>) -> bool {
    forall|i: int, j: int|
        0 <= i < j < listed.len() ==> #[trigger] listed[i].id != #[trigger] listed[j].id
}

/// No two tombstones of `listed` share an identifier.
pub open spec fn distinct_tombstones(listed: Seq<SyncTombstone>) -> bool {
    forall|i: int, j: int|
        0 <= i < j < listed.len() ==> #[trigger] listed[i].id != #[trigger] listed[j].id
}

/// `listed` holds an item `id`.
pub open spec fn holds_item(listed: Seq<VaultItem>, id: u128) -> bool {
    exists|i: int| 0 <= i < listed.len() && #[trigger] listed[i].id == id
}

/// `listed` holds a tombstone `id`.
pub open spec fn holds_tombstone(listed: Seq<SyncTombstone>, id: u128) -> bool {
    exists|i: int| 0 <= i < listed.len() && #[trigger] listed[i].id == id
}

/// The items of `listed` by identifier.
pub open spec fn items_map(listed: Seq<VaultItem>) -> Map<u128, VaultItemView> {
    Map::new(
        |id: u128| holds_item(listed, id),
        |id: u128| listed[choose|i: int| 0 <= i < listed.len() && #[trigger] listed[i].id == id]@,
    )
}

/// The tombstones of `listed` by identifier.
pub open spec fn tombstones_map(listed: Seq<SyncTombstone>) -> Map<u128, SyncTombstone> {
    Map::new(
        |id: u128| holds_tombstone(listed, id),
        |id: u128| listed[choose|i: int| 0 <= i < listed.len() && #[trigger] listed[i].id == id],
    )
}

/// The map of a list without repeated identifiers holds exactly what the
/// list holds.
pub proof fn lemma_items_map(listed: Seq<VaultItem>)
    requires
        distinct_items(listed),
    ensures
        lists_items(listed, items_map(listed)),
        forall|i: int| 0 <= i < listed.len() ==> items_map(listed)[#[trigger] listed[i].id] == listed[i]@,
{
    assert forall|i: int| 0 <= i < listed.len() implies items_map(listed).contains_key(
        #[trigger] listed[i].id,
    ) && items_map(listed)[listed[i].id] == listed[i]@ by {
        let id = listed[i].id;
        assert(holds_item(listed, id));
        let k = choose|k: int| 0 <= k < listed.len() && #[trigger] listed[k].id == id;
        if k < i {
            assert(listed[k].id != listed[i].id);
        }
        if i < k {
            assert(listed[i].id != listed[k].id);
        }
    }
}

/// The map of a list without repeated identifiers holds exactly what the
/// list holds.
pub proof fn lemma_tombstones_map(listed: Seq<SyncTombstone>)
    requires
        distinct_tombstones(listed),
    ensures
        lists_tombstones(listed, tombstones_map(listed)),
        forall|i: int|
            0 <= i < listed.len() ==> tombstones_map(listed)[#[trigger] listed[i].id] == listed[i],
{
    assert forall|i: int| 0 <= i < listed.len() implies tombstones_map(listed).contains_key(
        #[trigger] listed[i].id,
    ) && tombstones_map(listed)[listed[i].id] == listed[i] by {
        let id = listed[i].id;
        assert(holds_tombstone(listed, id));
        let k = choose|k: int| 0 <= k < listed.len() && #[trigger] listed[k].id == id;
        if k < i {
            assert(listed[k].id != listed[i].id);
        }
        if i < k {
            assert(listed[i].id != listed[k].id);
        }
    }
}

/// What a replica holds according to the listings of its items and its
/// tombstones.
pub open spec fn snapshot_state(items: Seq<VaultItem>, tombstones: Seq<SyncTombstone>) -> RepositoryState {
    RepositoryState { items: items_map(items), tombstones: tombstones_map(tombstones), auth: None }
}

/// A complete listing determines what is stored.
pub proof fn lemma_listing_is_the_state(
    items: Seq<VaultItem>,
    tombstones: Seq<SyncTombstone>,
    state: RepositoryState,
)
    requires
        lists_items(items, state.items),
        lists_tombstones(tombstones, state.tombstones),
    ensures
        distinct_items(items),
        distinct_tombstones(tombstones),
        snapshot_state(items, tombstones).items == state.items,
        snapshot_state(items, tombstones).tombstones == state.tombstones,
{
    lemma_items_map(items);
    lemma_tombstones_map(tombstones);
    assert forall|id: u128| items_map(items).contains_key(id) <==> state.items.contains_key(id) by {
        if holds_item(items, id) {
            let k = choose|k: int| 0 <= k < items.len() && #[trigger] items[k].id == id;
            assert(state.items.contains_key(items[k].id));
        }
        if state.items.contains_key(id) {
            let k = choose|k: int| 0 <= k < items.len() && #[trigger] items[k].id == id;
            assert(holds_item(items, id));
        }
    }
    assert forall|id: u128| items_map(items).contains_key(id) implies items_map(items)[id]
        == state.items[id] by {
        let k = choose|k: int| 0 <= k < items.len() && #[trigger] items[k].id == id;
        assert(items_map(items)[items[k].id] == items[k]@);
        assert(state.items[items[k].id] == items[k]@);
    }
    assert(items_map(items) =~= state.items);
    assert forall|id: u128|
        tombstones_map(tombstones).contains_key(id) <==> state.tombstones.contains_key(id) by {
        if holds_tombstone(tombstones, id) {
            let k = choose|k: int| 0 <= k < tombstones.len() && #[trigger] tombstones[k].id == id;
            assert(state.tombstones.contains_key(tombstones[k].id));
        }
        if state.tombstones.contains_key(id) {
            let k = choose|k: int| 0 <= k < tombstones.len() && #[trigger] tombstones[k].id == id;
            assert(holds_tombstone(tombstones, id));
        }
    }
    assert forall|id: u128| tombstones_map(tombstones).contains_key(id) implies tombstones_map(
        tombstones,
    )[id] == state.tombstones[id] by {
        let k = choose|k: int| 0 <= k < tombstones.len() && #[trigger] tombstones[k].id == id;
        assert(tombstones_map(tombstones)[tombstones[k].id] == tombstones[k]);
        assert(state.tombstones[tombstones[k].id] == tombstones[k]);
    }
    assert(tombstones_map(tombstones) =~= state.tombstones);
}

/// No item of `listed` was updated later than one that stands before it.
pub open spec fn newest_first(listed: Seq<VaultItem>) -> bool {
    forall|i: int, j: int|
        0 <= i < j < listed.len() ==> !(#[trigger] listed[j]).updated_at.is_after(
            (#[trigger] listed[i]).updated_at,
        )
}

/// Puts `items` in the order in which a repository lists them, the most
/// recently updated first. Nothing is added and nothing is lost.
pub fn arrange_newest_first(items: Vec<VaultItem>) -> (ordered: Vec<VaultItem>)
    ensures
        newest_first(ordered@),
        ordered@.to_multiset() == items@.to_multiset(),
        ordered@.len() == items@.len(),
{
    let mut rest = items;
    let mut ordered: Vec<VaultItem> = Vec::new();
    proof {
        broadcast use vstd::seq_lib::group_to_multiset_ensures;

        assert(ordered@.to_multiset().add(rest@.to_multiset()) =~= items@.to_multiset());
    }
    while rest.len() > 0
        invariant
            newest_first(ordered@),
            ordered@.to_multiset().add(rest@.to_multiset()) == items@.to_multiset(),
        decreases rest.len(),
    {
        let ghost rest_before = rest@;
        let ghost middle = ordered@;
        let item = match rest.pop() {
            Some(item) => item,
            None => {
                return ordered;
            },
        };
        let mut at: usize = 0;
        while at < ordered.len() && !item.updated_at.later_than(&ordered[at].updated_at)
            invariant
                at <= ordered.len(),
                ordered@ == middle,
                forall|k: int| 0 <= k < at ==> !item.updated_at.is_after((#[trigger] middle[k]).updated_at),
            decreases ordered.len() - at,
        {
            at += 1;
        }
        ordered.insert(at, item);
        proof {
            broadcast use vstd::seq_lib::group_to_multiset_ensures;

            let after = ordered@;
            assert(after == middle.insert(at as int, item));
            assert forall|i: int, j: int| 0 <= i < j < after.len() implies !(#[trigger] after[j]).updated_at.is_after(
                (#[trigger] after[i]).updated_at,
            ) by {
                let a = if i < at { i } else { i - 1 };
                let b = if j < at { j } else { j - 1 };
                if i != at {
                    assert(after[i] == middle[a]);
                }
                if j != at {
                    assert(after[j] == middle[b]);
                }
                if i == at {
                    assert(item.updated_at.is_after(middle[at as int].updated_at));
                    if b > at {
                        assert(!middle[b].updated_at.is_after(middle[at as int].updated_at));
                    }
                }
            }
            assert(rest_before =~= rest@.push(item));
            vstd::seq_lib::to_multiset_insert(middle, at as int, item);
            assert(ordered@.to_multiset().add(rest@.to_multiset()) =~= middle.to_multiset().add(
                rest_before.to_multiset(),
            ));
        }
    }
    proof {
        broadcast use vstd::seq_lib::group_to_multiset_ensures;

        assert(rest@.to_multiset() =~= vstd::multiset::Multiset::<VaultItem>::empty());
        assert(ordered@.to_multiset() =~= items@.to_multiset());
        vstd::seq_lib::to_multiset_len(ordered@);
        vstd::seq_lib::to_multiset_len(items@);
    }
    ordered
}

/// A listing that was put in another order lists the same items.
pub proof fn lemma_rearranged_lists_the_same(
    listed: Seq<VaultItem>,
    ordered: Seq<VaultItem>,
    stored: Map<u128, VaultItemView>,
)
    requires
        lists_items(listed, stored),
        ordered.to_multiset() == listed.to_multiset(),
    ensures
        lists_items(ordered, stored),
{
    assert(listed.no_duplicates()) by {
        assert forall|i: int, j: int| 0 <= i < listed.len() && 0 <= j < listed.len() && i
            != j implies listed[i] != listed[j] by {
            if i < j {
                assert(listed[i].id != listed[j].id);
            } else {
                assert(listed[j].id != listed[i].id);
            }
        }
    }
    listed.lemma_multiset_has_no_duplicates();
    ordered.lemma_multiset_has_no_duplicates_conv();
    assert forall|i: int| 0 <= i < ordered.len() implies stored.contains_key(
        #[trigger] ordered[i].id,
    ) && stored[ordered[i].id] == ordered[i]@ by {
        assert(ordered.contains(ordered[i]));
        vstd::seq_lib::to_multiset_contains(ordered, ordered[i]);
        vstd::seq_lib::to_multiset_contains(listed, ordered[i]);
        assert(listed.contains(ordered[i]));
        let k = choose|k: int| 0 <= k < listed.len() && listed[k] == ordered[i];
        assert(stored.contains_key(listed[k].id));
    }
    assert forall|i: int, j: int| 0 <= i < j < ordered.len() implies #[trigger] ordered[i].id
        != #[trigger] ordered[j].id by {
        assert(ordered.contains(ordered[i]));
        assert(ordered.contains(ordered[j]));
        vstd::seq_lib::to_multiset_contains(ordered, ordered[i]);
        vstd::seq_lib::to_multiset_contains(listed, ordered[i]);
        vstd::seq_lib::to_multiset_contains(ordered, ordered[j]);
        vstd::seq_lib::to_multiset_contains(listed, ordered[j]);
        assert(listed.contains(ordered[i]));
        assert(listed.contains(ordered[j]));
        let a = choose|a: int| 0 <= a < listed.len() && listed[a] == ordered[i];
        let b = choose|b: int| 0 <= b < listed.len() && listed[b] == ordered[j];
        assert(ordered[i] != ordered[j]);
        if a < b {
            assert(listed[a].id != listed[b].id);
        } else if b < a {
            assert(listed[b].id != listed[a].id);
        }
    }
    assert forall|id: u128| #[trigger] stored.contains_key(id) implies exists|i: int|
        0 <= i < ordered.len() && #[trigger] ordered[i].id == id by {
        let k = choose|k: int| 0 <= k < listed.len() && #[trigger] listed[k].id == id;
        assert(listed.contains(listed[k]));
        vstd::seq_lib::to_multiset_contains(listed, listed[k]);
        vstd::seq_lib::to_multiset_contains(ordered, listed[k]);
        assert(ordered.contains(listed[k]));
        let i = choose|i: int| 0 <= i < ordered.len() && ordered[i] == listed[k];
        assert(ordered[i].id == id);
    }
}

/// The position of the item `id` in `listed`.
pub fn position_of_item(listed: &Vec<VaultItem>, id: u128) -> (found: Option<usize>)
    ensures
        match found {
            Some(at) => at < listed.len() && listed[at as int].id == id,
            None => forall|k: int| 0 <= k < listed.len() ==> (#[trigger] listed[k]).id != id,
        },
{
    let mut i: usize = 0;
    while i < listed.len()
        invariant
            i <= listed.len(),
            forall|k: int| 0 <= k < i ==> (#[trigger] listed[k]).id != id,
        decreases listed.len() - i,
    {
        if listed[i].id == id {
            return Some(i);
        }
        i += 1;
    }
    None
}

/// The position of the first tombstone `id` in `listed`.
pub fn position_of_tombstone(listed: &Vec<SyncTombstone>, id: u128) -> (found: Option<usize>)
    ensures
        match found {
            Some(at) => at < listed.len() && listed[at as int].id == id && forall|k: int|
                0 <= k < at ==> (#[trigger] listed[k]).id != id,
            None => forall|k: int| 0 <= k < listed.len() ==> (#[trigger] listed[k]).id != id,
        },
{
    let mut i: usize = 0;
    while i < listed.len()
        invariant
            i <= listed.len(),
            forall|k: int| 0 <= k < i ==> (#[trigger] listed[k]).id != id,
        decreases listed.len() - i,
    {
        if listed[i].id == id {
            return Some(i);
        }
        i += 1;
    }
    None
}

/// What the removal of a record that may be absent comes to: that the
/// record was not there is no failure, and every other error stands.
pub fn removal_outcome(removed: Result<(), ChacrabError>) -> (r: Result<(), ChacrabError>)
    ensures
        r is Ok <==> (removed is Ok || (removed matches Err(e) && e@ == ErrorKind::NotFound)),
        r matches Err(e) ==> (removed matches Err(x) && x@ == e@),
{
    match removed {
        Ok(()) => Ok(()),
        Err(ChacrabError::NotFound) => Ok(()),
        Err(e) => Err(e),
    }
}

/// The capability set of a persistence backend.
///
/// Every call is atomic: it either takes effect as stated or fails and
/// leaves the repository as it was. A backend reports its own failures as
/// `Storage`; `NotFound` is reserved for an absent record.
pub trait VaultRepository {
    /// What the repository holds. A backend that states no model of its
    /// own is taken to hold an arbitrary one.
    closed spec fn state(&self) -> RepositoryState {
        arbitrary()
    }

    /// Creates the schema where it is absent. Stored records are untouched.
    fn init(&mut self) -> (r: Result<(), ChacrabError>)
        ensures
            final(self).state() == old(self).state(),
            r matches Err(e) ==> e@ == ErrorKind::Storage,
    ;

    /// Stores `item` under its identifier, replacing an item stored there.
    fn upsert_item(&mut self, item: &VaultItem) -> (r: Result<(), ChacrabError>)
        ensures
            r is Ok ==> final(self).state() == old(self).state().with_item(item@),
            r is Err ==> final(self).state() == old(self).state(),
            r matches Err(e) ==> e@ == ErrorKind::Storage,
    ;

    /// Every stored item, the most recently updated first.
    fn list_items(&self) -> (r: Result<Vec<VaultItem>, ChacrabError>)
        ensures
            r matches Ok(listed) ==> lists_items(listed@, self.state().items) && newest_first(
                listed@,
            ),
            r matches Err(e) ==> e@ == ErrorKind::Storage,
    ;

    /// The item stored under `id`; `NotFound` where there is none.
    fn get_item(&self, id: u128) -> (r: Result<VaultItem, ChacrabError>)
        ensures
            r matches Ok(item) ==> self.state().items.contains_key(id) && item@
                == self.state().items[id] && item.id == id,
            r matches Err(e) ==> e@ == ErrorKind::Storage || (e@ == ErrorKind::NotFound
                && !self.state().items.contains_key(id)),
            !self.state().items.contains_key(id) ==> r is Err,
    ;

    /// Removes the item stored under `id`; `NotFound` where there is none.
    fn delete_item(&mut self, id: u128) -> (r: Result<(), ChacrabError>)
        ensures
            r is Ok ==> old(self).state().items.contains_key(id) && final(self).state() == old(self).state().without_item(id),
            r matches Err(e) ==> final(self).state() == old(self).state() && (e@
                == ErrorKind::Storage || (e@ == ErrorKind::NotFound && !old(self).state().items.contains_key(id))),
            !old(self).state().items.contains_key(id) ==> r is Err,
    ;

    /// Stores `tombstone` under its identifier, replacing one stored there.
    fn upsert_tombstone(&mut self, tombstone: &SyncTombstone) -> (r: Result<(), ChacrabError>)
        ensures
            r is Ok ==> final(self).state() == old(self).state().with_tombstone(*tombstone),
            r is Err ==> final(self).state() == old(self).state(),
            r matches Err(e) ==> e@ == ErrorKind::Storage,
    ;

    /// Every stored tombstone.
    fn list_tombstones(&self) -> (r: Result<Vec<SyncTombstone>, ChacrabError>)
        ensures
            r matches Ok(listed) ==> lists_tombstones(listed@, self.state().tombstones),
            r matches Err(e) ==> e@ == ErrorKind::Storage,
    ;

    /// Removes the tombstone stored under `id`. Where there is none the call
    /// changes nothing; it may then succeed or fail with `NotFound`.
    fn delete_tombstone(&mut self, id: u128) -> (r: Result<(), ChacrabError>)
        ensures
            r is Ok ==> final(self).state() == old(self).state().without_tombstone(id),
            r matches Err(e) ==> final(self).state() == old(self).state() && (e@
                == ErrorKind::Storage || (e@ == ErrorKind::NotFound && !old(self).state().tombstones.contains_key(id))),
    ;

    /// The authentication record, if the vault was initialized.
    fn get_auth_record(&self) -> (r: Result<Option<AuthRecord>, ChacrabError>)
        ensures
            r matches Ok(found) ==> match found {
                Some(auth) => self.state().auth == Some(auth@),
                None => self.state().auth is None,
            },
            r matches Err(e) ==> e@ == ErrorKind::Storage,
    ;

    /// Stores `auth` as the single authentication record.
    fn set_auth_record(&mut self, auth: &AuthRecord) -> (r: Result<(), ChacrabError>)
        ensures
            r is Ok ==> final(self).state() == old(self).state().with_auth(auth@),
            r is Err ==> final(self).state() == old(self).state(),
            r matches Err(e) ==> e@ == ErrorKind::Storage,
    ;
}

} // verus!
