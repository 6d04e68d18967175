//! Bidirectional reconciliation of two replicas of one vault, with
//! tombstones, versions and a deterministic conflict policy.

use std::collections::{HashMap, HashSet};
use vstd::prelude::*;
use vstd::std_specs::hash::group_hash_axioms;
use crate::errors::{ChacrabError, ErrorKind};
use crate::models::{SyncTombstone, Timestamp, VaultItem, VaultItemView};
use crate::repository::{
    blobs_are_valid, distinct_items, distinct_tombstones, lemma_items_map, lemma_listing_is_the_state,
    lemma_tombstones_map, lists_items, lists_tombstones, removal_outcome, snapshot_state,
    RepositoryState, VaultRepository,
};

verus! {

broadcast use group_hash_axioms;

/// What one replica knows of one identifier: the live item or the receipt of
/// its deletion.
pub enum SyncStateView {
    Item(VaultItemView),
    Tombstone(SyncTombstone),
}

impl SyncStateView {
    /// The version that the state carries.
    pub open spec fn version(self) -> u64 {
        match self {
            SyncStateView::Item(item) => item.sync_version,
            SyncStateView::Tombstone(tombstone) => tombstone.sync_version,
        }
    }

    /// The instant of the last change: the update of an item, the deletion
    /// that a tombstone records.
    pub open spec fn timestamp(self) -> Timestamp {
        match self {
            SyncStateView::Item(item) => item.updated_at,
            SyncStateView::Tombstone(tombstone) => tombstone.deleted_at,
        }
    }
}

/// The outcome of reconciling one identifier.
pub struct ResolutionView {
    /// The state that both replicas shall hold.
    pub winner: SyncStateView,
    /// Both replicas held a state and the two differed.
    pub conflict: bool,
    /// The remote replica offered a version older than the local one.
    pub replay_blocked: bool,
}

/// Whether `left` is at least `right` in the lexicographic order of byte
/// strings.
pub open spec fn bytes_at_least(left: Seq<u8>, right: Seq<u8>) -> bool
    decreases right.len(),
{
    if right.len() == 0 {
        true
    } else if left.len() == 0 {
        false
    } else if left[0] != right[0] {
        left[0] > right[0]
    } else {
        bytes_at_least(left.skip(1), right.skip(1))
    }
}

/// The state of `id` on one replica. Where the replica holds both an item
/// and a tombstone, the higher version stands for it, the tombstone at a tie.
pub open spec fn side_state(side: RepositoryState, id: u128) -> Option<SyncStateView> {
    if side.items.contains_key(id) {
        if side.tombstones.contains_key(id) && side.tombstones[id].sync_version
            >= side.items[id].sync_version {
            Some(SyncStateView::Tombstone(side.tombstones[id]))
        } else {
            Some(SyncStateView::Item(side.items[id]))
        }
    } else if side.tombstones.contains_key(id) {
        Some(SyncStateView::Tombstone(side.tombstones[id]))
    } else {
        None
    }
}

/// The conflict policy for two differing states of equal version and equal
/// timestamp: a tombstone beats an item, of two items the one with the
/// greater ciphertext wins, of two tombstones the local one.
pub open spec fn tie_break(local: SyncStateView, remote: SyncStateView) -> SyncStateView {
    match (local, remote) {
        (SyncStateView::Tombstone(_), SyncStateView::Item(_)) => local,
        (SyncStateView::Item(_), SyncStateView::Tombstone(_)) => remote,
        (SyncStateView::Item(l), SyncStateView::Item(r)) => if bytes_at_least(
            l.encrypted_data,
            r.encrypted_data,
        ) {
            local
        } else {
            remote
        },
        (SyncStateView::Tombstone(_), SyncStateView::Tombstone(_)) => local,
    }
}

/// Reconciles the two states of one identifier.
///
/// A state that only one replica holds wins without conflict, and so do two
/// equal states. Otherwise the higher version wins; a remote version below
/// the local one is a blocked replay. At equal versions the later timestamp
/// wins, and at equal timestamps [`tie_break`] decides.
pub open spec fn resolve(local: Option<SyncStateView>, remote: Option<SyncStateView>) -> Option<
    ResolutionView,
> {
    match (local, remote) {
        (None, None) => None,
        (Some(state), None) => Some(
            ResolutionView { winner: state, conflict: false, replay_blocked: false },
        ),
        (None, Some(state)) => Some(
            ResolutionView { winner: state, conflict: false, replay_blocked: false },
        ),
        (Some(l), Some(r)) => if l == r {
            Some(ResolutionView { winner: l, conflict: false, replay_blocked: false })
        } else if r.version() < l.version() {
            Some(ResolutionView { winner: l, conflict: true, replay_blocked: true })
        } else if l.version() < r.version() {
            Some(ResolutionView { winner: r, conflict: true, replay_blocked: false })
        } else if l.timestamp().is_after(r.timestamp()) {
            Some(ResolutionView { winner: l, conflict: true, replay_blocked: false })
        } else if r.timestamp().is_after(l.timestamp()) {
            Some(ResolutionView { winner: r, conflict: true, replay_blocked: false })
        } else {
            Some(ResolutionView { winner: tie_break(l, r), conflict: true, replay_blocked: false })
        },
    }
}

/// The state that both replicas shall hold for `id`, if either holds one.
pub open spec fn winner_of(local: RepositoryState, remote: RepositoryState, id: u128) -> Option<
    SyncStateView,
> {
    match resolve(side_state(local, id), side_state(remote, id)) {
        Some(resolution) => Some(resolution.winner),
        None => None,
    }
}

/// The local replica does not hold the winner for `id` yet.
pub open spec fn needs_download(local: RepositoryState, remote: RepositoryState, id: u128) -> bool {
    winner_of(local, remote, id) is Some && side_state(local, id) != winner_of(local, remote, id)
}

/// The remote replica does not hold the winner for `id` yet.
pub open spec fn needs_upload(local: RepositoryState, remote: RepositoryState, id: u128) -> bool {
    winner_of(local, remote, id) is Some && side_state(remote, id) != winner_of(local, remote, id)
}

/// Both replicas hold a state for `id` and the two differ.
pub open spec fn in_conflict(local: RepositoryState, remote: RepositoryState, id: u128) -> bool {
    resolve(side_state(local, id), side_state(remote, id)) matches Some(resolution)
        && resolution.conflict
}

/// The remote replica offers for `id` a version older than the local one.
pub open spec fn is_replay(local: RepositoryState, remote: RepositoryState, id: u128) -> bool {
    resolve(side_state(local, id), side_state(remote, id)) matches Some(resolution)
        && resolution.replay_blocked
}

/// Every identifier that either replica holds an item or a tombstone for.
pub open spec fn all_ids(local: RepositoryState, remote: RepositoryState) -> Set<u128> {
    local.items.dom() + local.tombstones.dom() + remote.items.dom() + remote.tombstones.dom()
}

/// A replica after `winner` was applied for `id`: a winning item is stored
/// and the tombstone removed, a winning tombstone is stored and the item
/// removed.
pub open spec fn apply_winner(side: RepositoryState, id: u128, winner: SyncStateView) -> RepositoryState {
    match winner {
        SyncStateView::Item(item) => RepositoryState {
            items: side.items.insert(id, item),
            tombstones: side.tombstones.remove(id),
            auth: side.auth,
        },
        SyncStateView::Tombstone(tombstone) => RepositoryState {
            items: side.items.remove(id),
            tombstones: side.tombstones.insert(id, tombstone),
            auth: side.auth,
        },
    }
}

/// A replica on which the winner for `id` was applied by half: a winning
/// item is stored but the tombstone is still there, or the item is removed
/// but the winning tombstone is not stored yet.
pub open spec fn half_applied(side: RepositoryState, id: u128, winner: SyncStateView) -> RepositoryState {
    match winner {
        SyncStateView::Item(item) => RepositoryState {
            items: side.items.insert(id, item),
            tombstones: side.tombstones,
            auth: side.auth,
        },
        SyncStateView::Tombstone(_) => RepositoryState {
            items: side.items.remove(id),
            tombstones: side.tombstones,
            auth: side.auth,
        },
    }
}

/// The item and the tombstone that a replica holds for `id`.
pub open spec fn records_at(side: RepositoryState, id: u128) -> (
    Option<VaultItemView>,
    Option<SyncTombstone>,
) {
    (
        if side.items.contains_key(id) {
            Some(side.items[id])
        } else {
            None
        },
        if side.tombstones.contains_key(id) {
            Some(side.tombstones[id])
        } else {
            None
        },
    )
}

/// What a run between `local` and `remote` leaves on a replica for `id`,
/// whether it ends or is cut short: the records as they were or, where the
/// replica lacked the winner, the winner applied or applied by half.
pub open spec fn left_for(
    before: RepositoryState,
    after: RepositoryState,
    local: RepositoryState,
    remote: RepositoryState,
    id: u128,
) -> bool {
    let winner = winner_of(local, remote, id);
    ||| records_at(after, id) == records_at(before, id)
    ||| winner is Some && side_state(before, id) != winner && records_at(after, id) == records_at(
        apply_winner(before, id, winner->0),
        id,
    )
    ||| winner is Some && side_state(before, id) != winner && records_at(after, id) == records_at(
        half_applied(before, id, winner->0),
        id,
    )
}

/// The replica `side` after the identifiers in `done` were reconciled
/// between `local` and `remote`: where `side` did not hold the winner, the
/// winner was applied; everything else is as it was.
pub open spec fn reconciled(
    side: RepositoryState,
    local: RepositoryState,
    remote: RepositoryState,
    done: Set<u128>,
) -> RepositoryState {
    RepositoryState {
        items: Map::new(
            |id: u128|
                if done.contains(id) && winner_of(local, remote, id) is Some && side_state(side, id)
                    != winner_of(local, remote, id) {
                    winner_of(local, remote, id)->0 is Item
                } else {
                    side.items.contains_key(id)
                },
            |id: u128|
                if done.contains(id) && winner_of(local, remote, id) is Some && side_state(side, id)
                    != winner_of(local, remote, id) {
                    winner_of(local, remote, id)->0->Item_0
                } else {
                    side.items[id]
                },
        ),
        tombstones: Map::new(
            |id: u128|
                if done.contains(id) && winner_of(local, remote, id) is Some && side_state(side, id)
                    != winner_of(local, remote, id) {
                    winner_of(local, remote, id)->0 is Tombstone
                } else {
                    side.tombstones.contains_key(id)
                },
            |id: u128|
                if done.contains(id) && winner_of(local, remote, id) is Some && side_state(side, id)
                    != winner_of(local, remote, id) {
                    winner_of(local, remote, id)->0->Tombstone_0
                } else {
                    side.tombstones[id]
                },
        ),
        auth: side.auth,
    }
}

/// The identifiers whose winner the local replica lacks.
pub open spec fn download_ids(local: RepositoryState, remote: RepositoryState) -> Set<u128> {
    Set::new(|id: u128| needs_download(local, remote, id))
}

/// The identifiers whose winner the remote replica lacks.
pub open spec fn upload_ids(local: RepositoryState, remote: RepositoryState) -> Set<u128> {
    Set::new(|id: u128| needs_upload(local, remote, id))
}

/// The identifiers on which the two replicas differ.
pub open spec fn conflict_set(local: RepositoryState, remote: RepositoryState) -> Set<u128> {
    Set::new(|id: u128| in_conflict(local, remote, id))
}

/// The identifiers for which the remote replica offers a stale version.
pub open spec fn replay_ids(local: RepositoryState, remote: RepositoryState) -> Set<u128> {
    Set::new(|id: u128| is_replay(local, remote, id))
}

/// The reason with which a sync run turns away a malformed item.
pub open spec fn invalid_payload_reason() -> Seq<char> {
    "sync rejected invalid encrypted payload"@
}

/// An item or a tombstone as the engine handles it.
#[derive(Debug)]
pub enum SyncState {
    Item(VaultItem),
    Tombstone(SyncTombstone),
}

impl View for SyncState {
    type V = SyncStateView;

    open spec fn view(&self) -> SyncStateView {
        match self {
            SyncState::Item(item) => SyncStateView::Item(item@),
            SyncState::Tombstone(tombstone) => SyncStateView::Tombstone(*tombstone),
        }
    }
}

impl Clone for SyncState {
    fn clone(&self) -> (copy: Self)
        ensures
            copy@ == self@,
    {
        match self {
            SyncState::Item(item) => SyncState::Item(item.clone()),
            SyncState::Tombstone(tombstone) => SyncState::Tombstone(*tombstone),
        }
    }
}

/// The outcome of reconciling one identifier.
#[derive(Debug)]
pub struct Resolution {
    pub winner: SyncState,
    pub conflict: bool,
    pub replay_blocked: bool,
}

impl View for Resolution {
    type V = ResolutionView;

    open spec fn view(&self) -> ResolutionView {
        ResolutionView {
            winner: self.winner@,
            conflict: self.conflict,
            replay_blocked: self.replay_blocked,
        }
    }
}

/// The view of an optional state.
pub open spec fn state_view(state: Option<SyncState>) -> Option<SyncStateView> {
    match state {
        Some(s) => Some(s@),
        None => None,
    }
}

/// The view of an optional resolution.
pub open spec fn resolution_view(resolution: Option<Resolution>) -> Option<ResolutionView> {
    match resolution {
        Some(r) => Some(r@),
        None => None,
    }
}

/// Whether `left` is at least `right` in the lexicographic order of byte
/// strings.
pub fn bytes_not_below(left: &[u8], right: &[u8]) -> (at_least: bool)
    ensures
        at_least == bytes_at_least(left@, right@),
{
    let mut i: usize = 0;
    assert(left@.skip(0) == left@ && right@.skip(0) == right@);
    while i < left.len() && i < right.len()
        invariant
            i <= left.len(),
            i <= right.len(),
            bytes_at_least(left@, right@) == bytes_at_least(left@.skip(i as int), right@.skip(i as int)),
        decreases left.len() - i,
    {
        let a: u8 = left[i];
        let b: u8 = right[i];
        assert(left@.skip(i as int)[0] == a);
        assert(right@.skip(i as int)[0] == b);
        if a != b {
            return a > b;
        }
        assert(left@.skip(i as int).skip(1) == left@.skip(i as int + 1));
        assert(right@.skip(i as int).skip(1) == right@.skip(i as int + 1));
        i += 1;
    }
    i >= right.len()
}

/// What the sync run did.
#[derive(Debug)]
pub struct SyncReport {
    /// Identifiers whose winner was applied to the remote replica.
    pub uploaded: u64,
    /// Identifiers whose winner was applied to the local replica.
    pub downloaded: u64,
    /// Identifiers on which the two replicas differed.
    pub conflicts: u64,
    /// Identifiers for which a stale remote version was turned away.
    pub replay_blocked: u64,
    /// The identifiers counted under `conflicts`, each once.
    pub conflict_ids: Vec<u128>,
}

impl Default for SyncReport {
    /// The report of a run that found nothing to do.
    fn default() -> (report: Self)
        ensures
            report.uploaded == 0,
            report.downloaded == 0,
            report.conflicts == 0,
            report.replay_blocked == 0,
            report.conflict_ids@.len() == 0,
    {
        SyncReport {
            uploaded: 0,
            downloaded: 0,
            conflicts: 0,
            replay_blocked: 0,
            conflict_ids: Vec::new(),
        }
    }
}

impl Clone for SyncReport {
    fn clone(&self) -> (copy: Self)
        ensures
            copy.uploaded == self.uploaded,
            copy.downloaded == self.downloaded,
            copy.conflicts == self.conflicts,
            copy.replay_blocked == self.replay_blocked,
            copy.conflict_ids@ == self.conflict_ids@,
    {
        SyncReport {
            uploaded: self.uploaded,
            downloaded: self.downloaded,
            conflicts: self.conflicts,
            replay_blocked: self.replay_blocked,
            conflict_ids: self.conflict_ids.clone(),
        }
    }
}

/// The reconciliation engine.
pub struct SyncEngine;

impl SyncEngine {
    /// Whether the encrypted part of `item` can be a ciphertext at all: it
    /// is not empty and the nonce has twelve bytes.
    pub fn validate_encrypted_blob_only(item: &VaultItem) -> (valid: bool)
        ensures
            valid == item@.blob_is_valid(),
    {
        !item.encrypted_data.is_empty() && item.nonce.len() == 12
    }

    /// The version that `state` carries.
    pub fn state_version(state: &SyncState) -> (version: u64)
        ensures
            version == state@.version(),
    {
        match state {
            SyncState::Item(item) => item.sync_version,
            SyncState::Tombstone(tombstone) => tombstone.sync_version,
        }
    }

    /// The instant of the last change that `state` records.
    pub fn state_timestamp(state: &SyncState) -> (at: Timestamp)
        ensures
            at == state@.timestamp(),
    {
        match state {
            SyncState::Item(item) => item.updated_at,
            SyncState::Tombstone(tombstone) => tombstone.deleted_at,
        }
    }

    /// Whether two states are of the same kind and agree in every field.
    pub fn state_equivalent(left: &SyncState, right: &SyncState) -> (same: bool)
        ensures
            same == (left@ == right@),
    {
        match (left, right) {
            (SyncState::Item(local), SyncState::Item(remote)) => local.same_as(remote),
            (SyncState::Tombstone(local), SyncState::Tombstone(remote)) => *local == *remote,
            _ => false,
        }
    }

    /// Whether the replica already holds the winner.
    pub fn state_matches_winner(current: &Option<SyncState>, winner: &SyncState) -> (same: bool)
        ensures
            same == (state_view(*current) == Some(winner@)),
    {
        match current {
            Some(state) => Self::state_equivalent(state, winner),
            None => false,
        }
    }

    /// Reconciles the two states of one identifier, as [`resolve`] says.
    pub fn resolve_state(local: &Option<SyncState>, remote: &Option<SyncState>) -> (resolution:
        Option<Resolution>)
        ensures
            resolution_view(resolution) == resolve(state_view(*local), state_view(*remote)),
    {
        match (local, remote) {
            (None, None) => None,
            (Some(state), None) => Some(
                Resolution { winner: state.clone(), conflict: false, replay_blocked: false },
            ),
            (None, Some(state)) => Some(
                Resolution { winner: state.clone(), conflict: false, replay_blocked: false },
            ),
            (Some(local_state), Some(remote_state)) => {
                if Self::state_equivalent(local_state, remote_state) {
                    return Some(
                        Resolution {
                            winner: local_state.clone(),
                            conflict: false,
                            replay_blocked: false,
                        },
                    );
                }
                let local_version: u64 = Self::state_version(local_state);
                let remote_version: u64 = Self::state_version(remote_state);
                if remote_version < local_version {
                    return Some(
                        Resolution {
                            winner: local_state.clone(),
                            conflict: true,
                            replay_blocked: true,
                        },
                    );
                }
                if local_version < remote_version {
                    return Some(
                        Resolution {
                            winner: remote_state.clone(),
                            conflict: true,
                            replay_blocked: false,
                        },
                    );
                }
                let local_time = Self::state_timestamp(local_state);
                let remote_time = Self::state_timestamp(remote_state);
                if local_time.later_than(&remote_time) {
                    return Some(
                        Resolution {
                            winner: local_state.clone(),
                            conflict: true,
                            replay_blocked: false,
                        },
                    );
                }
                if remote_time.later_than(&local_time) {
                    return Some(
                        Resolution {
                            winner: remote_state.clone(),
                            conflict: true,
                            replay_blocked: false,
                        },
                    );
                }
                let winner = match (local_state, remote_state) {
                    (SyncState::Tombstone(_), SyncState::Item(_)) => local_state.clone(),
                    (SyncState::Item(_), SyncState::Tombstone(_)) => remote_state.clone(),
                    (SyncState::Item(local_item), SyncState::Item(remote_item)) => {
                        if bytes_not_below(
                            local_item.encrypted_data.as_slice(),
                            remote_item.encrypted_data.as_slice(),
                        ) {
                            local_state.clone()
                        } else {
                            remote_state.clone()
                        }
                    },
                    (SyncState::Tombstone(_), SyncState::Tombstone(_)) => local_state.clone(),
                };
                Some(Resolution { winner, conflict: true, replay_blocked: false })
            },
        }
    }
}

/// The identifiers of `listed`, in order.
pub open spec fn item_id_seq(listed: Seq<VaultItem>) -> Seq<u128> {
    Seq::new(listed.len(), |i: int| listed[i].id)
}

/// The identifiers of `listed`, in order.
pub open spec fn tombstone_id_seq(listed: Seq<SyncTombstone>) -> Seq<u128> {
    Seq::new(listed.len(), |i: int| listed[i].id)
}

/// `index` maps each identifier of `ids` to its position and nothing else.
pub open spec fn indexes(index: Map<u128, usize>, ids: Seq<u128>) -> bool {
    &&& forall|i: int| 0 <= i < ids.len() ==> index.contains_key(#[trigger] ids[i]) && index[ids[i]] == i
    &&& forall|id: u128| #[trigger]
        index.contains_key(id) ==> index[id] < ids.len() && ids[index[id] as int] == id
}

fn ids_of_items(listed: &Vec<VaultItem>) -> (ids: Vec<u128>)
    ensures
        ids@ == item_id_seq(listed@),
{
    let mut ids: Vec<u128> = Vec::new();
    let mut i: usize = 0;
    while i < listed.len()
        invariant
            i <= listed.len(),
            ids@ == item_id_seq(listed@.take(i as int)),
        decreases listed.len() - i,
    {
        ids.push(listed[i].id);
        i += 1;
        assert(ids@ =~= item_id_seq(listed@.take(i as int)));
    }
    assert(listed@.take(i as int) =~= listed@);
    ids
}

fn ids_of_tombstones(listed: &Vec<SyncTombstone>) -> (ids: Vec<u128>)
    ensures
        ids@ == tombstone_id_seq(listed@),
{
    let mut ids: Vec<u128> = Vec::new();
    let mut i: usize = 0;
    while i < listed.len()
        invariant
            i <= listed.len(),
            ids@ == tombstone_id_seq(listed@.take(i as int)),
        decreases listed.len() - i,
    {
        ids.push(listed[i].id);
        i += 1;
        assert(ids@ =~= tombstone_id_seq(listed@.take(i as int)));
    }
    assert(listed@.take(i as int) =~= listed@);
    ids
}

fn index_ids(ids: &Vec<u128>) -> (index: HashMap<u128, usize>)
    requires
        ids@.no_duplicates(),
    ensures
        indexes(index@, ids@),
{
    let mut index: HashMap<u128, usize> = HashMap::new();
    let mut i: usize = 0;
    while i < ids.len()
        invariant
            i <= ids.len(),
            ids@.no_duplicates(),
            indexes(index@, ids@.take(i as int)),
        decreases ids.len() - i,
    {
        let id: u128 = ids[i];
        index.insert(id, i);
        i += 1;
        assert(indexes(index@, ids@.take(i as int))) by {
            let prefix = ids@.take(i as int);
            assert forall|k: int| 0 <= k < prefix.len() implies index@.contains_key(
                #[trigger] prefix[k],
            ) && index@[prefix[k]] == k by {
                if k < i - 1 {
                    assert(ids@.take(i - 1)[k] == prefix[k]);
                }
            }
            assert forall|key: u128| #[trigger] index@.contains_key(key) implies index@[key]
                < prefix.len() && prefix[index@[key] as int] == key by {
                if key != id {
                    let at = index@[key] as int;
                    assert(ids@.take(i - 1)[at] == key);
                }
            }
        }
    }
    assert(ids@.take(i as int) =~= ids@);
    index
}

fn distinct_ids(raw: &Vec<u128>) -> (ids: Vec<u128>)
    ensures
        ids@.no_duplicates(),
        ids@.to_set() == raw@.to_set(),
{
    let mut ids: Vec<u128> = Vec::new();
    let mut seen: HashSet<u128> = HashSet::new();
    let mut i: usize = 0;
    while i < raw.len()
        invariant
            i <= raw.len(),
            ids@.no_duplicates(),
            seen@ == ids@.to_set(),
            ids@.to_set() == raw@.take(i as int).to_set(),
        decreases raw.len() - i,
    {
        let id: u128 = raw[i];
        let fresh: bool = seen.insert(id);
        let ghost before = ids@;
        if fresh {
            ids.push(id);
            assert(ids@.no_duplicates()) by {
                assert forall|a: int, b: int| 0 <= a < b < ids@.len() implies ids@[a] != ids@[b] by {
                    if b == ids@.len() - 1 {
                        assert(before.to_set().contains(before[a]));
                    }
                }
            }
        }
        i += 1;
        assert(ids@.to_set() =~= raw@.take(i as int).to_set() && seen@ =~= ids@.to_set()) by {
            let now = raw@.take(i as int);
            let earlier = raw@.take(i - 1);
            assert forall|x: u128| ids@.to_set().contains(x) <==> now.to_set().contains(x) by {
                if ids@.to_set().contains(x) {
                    let k = choose|k: int| 0 <= k < ids@.len() && ids@[k] == x;
                    if k < before.len() {
                        assert(before.to_set().contains(before[k]));
                        let m = choose|m: int| 0 <= m < earlier.len() && earlier[m] == x;
                        assert(now[m] == x);
                    } else {
                        assert(now[i - 1] == x);
                    }
                }
                if now.to_set().contains(x) {
                    let m = choose|m: int| 0 <= m < now.len() && now[m] == x;
                    if m < i - 1 {
                        assert(earlier[m] == x);
                        assert(earlier.to_set().contains(x));
                        let k = choose|k: int| 0 <= k < before.len() && before[k] == x;
                        assert(ids@[k] == x);
                    } else {
                        if fresh {
                            assert(ids@[ids@.len() - 1] == x);
                        } else {
                            let k = choose|k: int| 0 <= k < before.len() && before[k] == x;
                            assert(ids@[k] == x);
                        }
                    }
                }
            }
            assert forall|x: u128| seen@.contains(x) <==> ids@.to_set().contains(x) by {
                if seen@.contains(x) && x == id {
                    if fresh {
                        assert(ids@[ids@.len() - 1] == x);
                    }
                }
                if seen@.contains(x) && x != id {
                    let k = choose|k: int| 0 <= k < before.len() && before[k] == x;
                    assert(ids@[k] == x);
                }
                if ids@.to_set().contains(x) {
                    let k = choose|k: int| 0 <= k < ids@.len() && ids@[k] == x;
                    if k < before.len() {
                        assert(before.to_set().contains(before[k]));
                    }
                }
            }
        }
    }
    assert(raw@.take(i as int) =~= raw@);
    ids
}

fn side_lookup(
    items: &Vec<VaultItem>,
    item_index: &HashMap<u128, usize>,
    tombstones: &Vec<SyncTombstone>,
    tombstone_index: &HashMap<u128, usize>,
    id: u128,
    Ghost(side): Ghost<RepositoryState>,
) -> (state: Option<SyncState>)
    requires
        lists_items(items@, side.items),
        lists_tombstones(tombstones@, side.tombstones),
        indexes(item_index@, item_id_seq(items@)),
        indexes(tombstone_index@, tombstone_id_seq(tombstones@)),
    ensures
        state_view(state) == side_state(side, id),
        state matches Some(SyncState::Item(item)) ==> item.id == id,
        state matches Some(SyncState::Tombstone(tombstone)) ==> tombstone.id == id,
{
    let item_at = item_index.get(&id);
    let tombstone_at = tombstone_index.get(&id);
    proof {
        if side.items.contains_key(id) {
            let k = choose|k: int| 0 <= k < items@.len() && (#[trigger] items@[k].id) == id;
            assert(item_id_seq(items@)[k] == id);
        }
        if side.tombstones.contains_key(id) {
            let k = choose|k: int| 0 <= k < tombstones@.len() && (#[trigger] tombstones@[k].id) == id;
            assert(tombstone_id_seq(tombstones@)[k] == id);
        }
        if item_index@.contains_key(id) {
            let k = item_index@[id] as int;
            assert(item_id_seq(items@)[k] == id);
            assert(items@[k].id == id);
        }
        if tombstone_index@.contains_key(id) {
            let k = tombstone_index@[id] as int;
            assert(tombstone_id_seq(tombstones@)[k] == id);
            assert(tombstones@[k].id == id);
        }
    }
    match (item_at, tombstone_at) {
        (None, None) => None,
        (Some(i), None) => Some(SyncState::Item(items[*i].clone())),
        (None, Some(t)) => Some(SyncState::Tombstone(tombstones[*t])),
        (Some(i), Some(t)) => {
            if tombstones[*t].sync_version >= items[*i].sync_version {
                Some(SyncState::Tombstone(tombstones[*t]))
            } else {
                Some(SyncState::Item(items[*i].clone()))
            }
        },
    }
}


/// The four things that a sync run counts.
enum Tally {
    Download,
    Upload,
    Conflict,
    Replay,
}

spec fn tallies(local: RepositoryState, remote: RepositoryState, kind: Tally, id: u128) -> bool {
    match kind {
        Tally::Download => needs_download(local, remote, id),
        Tally::Upload => needs_upload(local, remote, id),
        Tally::Conflict => in_conflict(local, remote, id),
        Tally::Replay => is_replay(local, remote, id),
    }
}

spec fn tallied(local: RepositoryState, remote: RepositoryState, kind: Tally, within: Set<u128>) -> Set<
    u128,
> {
    Set::new(|id: u128| within.contains(id) && tallies(local, remote, kind, id))
}

proof fn lemma_tally_bounded(
    local: RepositoryState,
    remote: RepositoryState,
    kind: Tally,
    within: Set<u128>,
)
    requires
        within.finite(),
    ensures
        tallied(local, remote, kind, within).finite(),
        tallied(local, remote, kind, within).len() <= within.len(),
{
    vstd::set_lib::lemma_len_subset(tallied(local, remote, kind, within), within);
}

proof fn lemma_tally_step(
    local: RepositoryState,
    remote: RepositoryState,
    kind: Tally,
    within: Set<u128>,
    id: u128,
)
    requires
        within.finite(),
        !within.contains(id),
    ensures
        tallied(local, remote, kind, within.insert(id)).len() == tallied(
            local,
            remote,
            kind,
            within,
        ).len() + (if tallies(local, remote, kind, id) {
            1int
        } else {
            0int
        }),
        tallies(local, remote, kind, id) ==> tallied(local, remote, kind, within.insert(id))
            == tallied(local, remote, kind, within).insert(id),
        !tallies(local, remote, kind, id) ==> tallied(local, remote, kind, within.insert(id))
            == tallied(local, remote, kind, within),
{
    lemma_tally_bounded(local, remote, kind, within);
    let before = tallied(local, remote, kind, within);
    let after = tallied(local, remote, kind, within.insert(id));
    if tallies(local, remote, kind, id) {
        assert(after =~= before.insert(id));
    } else {
        assert(after =~= before);
    }
}

proof fn lemma_tally_covers(local: RepositoryState, remote: RepositoryState)
    ensures
        tallied(local, remote, Tally::Download, all_ids(local, remote)) == download_ids(
            local,
            remote,
        ),
        tallied(local, remote, Tally::Upload, all_ids(local, remote)) == upload_ids(local, remote),
        tallied(local, remote, Tally::Conflict, all_ids(local, remote)) == conflict_set(
            local,
            remote,
        ),
        tallied(local, remote, Tally::Replay, all_ids(local, remote)) == replay_ids(local, remote),
{
    assert(tallied(local, remote, Tally::Download, all_ids(local, remote)) =~= download_ids(
        local,
        remote,
    ));
    assert(tallied(local, remote, Tally::Upload, all_ids(local, remote)) =~= upload_ids(
        local,
        remote,
    ));
    assert(tallied(local, remote, Tally::Conflict, all_ids(local, remote)) =~= conflict_set(
        local,
        remote,
    ));
    assert(tallied(local, remote, Tally::Replay, all_ids(local, remote)) =~= replay_ids(
        local,
        remote,
    ));
}

proof fn lemma_reconciled_nothing_done(
    side: RepositoryState,
    local: RepositoryState,
    remote: RepositoryState,
)
    ensures
        reconciled(side, local, remote, Set::empty()) == side,
{
    let after = reconciled(side, local, remote, Set::empty());
    assert(after.items =~= side.items);
    assert(after.tombstones =~= side.tombstones);
}

proof fn lemma_reconciled_skip(
    side: RepositoryState,
    local: RepositoryState,
    remote: RepositoryState,
    done: Set<u128>,
    id: u128,
)
    requires
        !(winner_of(local, remote, id) is Some && side_state(side, id) != winner_of(
            local,
            remote,
            id,
        )),
    ensures
        reconciled(side, local, remote, done.insert(id)) == reconciled(side, local, remote, done),
{
    let before = reconciled(side, local, remote, done);
    let after = reconciled(side, local, remote, done.insert(id));
    assert(after.items =~= before.items);
    assert(after.tombstones =~= before.tombstones);
}

proof fn lemma_reconciled_apply(
    side: RepositoryState,
    local: RepositoryState,
    remote: RepositoryState,
    done: Set<u128>,
    id: u128,
)
    requires
        !done.contains(id),
        winner_of(local, remote, id) is Some,
        side_state(side, id) != winner_of(local, remote, id),
    ensures
        apply_winner(
            reconciled(side, local, remote, done),
            id,
            winner_of(local, remote, id)->0,
        ) == reconciled(side, local, remote, done.insert(id)),
{
    let before = reconciled(side, local, remote, done);
    let applied = apply_winner(before, id, winner_of(local, remote, id)->0);
    let after = reconciled(side, local, remote, done.insert(id));
    assert(applied.items =~= after.items);
    assert(applied.tombstones =~= after.tombstones);
}

/// A replica on which some identifiers were reconciled holds, for every
/// identifier, the records as they were or the winner.
proof fn lemma_reconciled_left(
    side: RepositoryState,
    local: RepositoryState,
    remote: RepositoryState,
    done: Set<u128>,
)
    ensures
        forall|id: u128| #[trigger]
            left_for(side, reconciled(side, local, remote, done), local, remote, id),
{
}

/// A run that is cut short while it applies the winner for `id` leaves
/// every identifier with the records as they were, the winner, or the
/// winner applied by half.
proof fn lemma_cut_short(
    side: RepositoryState,
    local: RepositoryState,
    remote: RepositoryState,
    done: Set<u128>,
    id: u128,
    after: RepositoryState,
)
    requires
        !done.contains(id),
        winner_of(local, remote, id) is Some,
        side_state(side, id) != winner_of(local, remote, id),
        after == reconciled(side, local, remote, done) || after == half_applied(
            reconciled(side, local, remote, done),
            id,
            winner_of(local, remote, id)->0,
        ),
    ensures
        forall|other: u128| #[trigger] left_for(side, after, local, remote, other),
{
    lemma_reconciled_left(side, local, remote, done);
    let before = reconciled(side, local, remote, done);
    assert forall|other: u128| #[trigger] left_for(side, after, local, remote, other) by {
        assert(left_for(side, before, local, remote, other));
        if other != id {
            assert(records_at(after, other) == records_at(before, other));
        } else {
            assert(records_at(before, id) == records_at(side, id));
        }
    }
}

impl SyncEngine {
    /// Applying the winner of an identifier to both replicas leaves both
    /// with the same state for it: the winner.
    pub proof fn lemma_winner_settles_both_sides(
        local: RepositoryState,
        remote: RepositoryState,
        id: u128,
    )
        requires
            winner_of(local, remote, id) is Some,
        ensures
            side_state(apply_winner(local, id, winner_of(local, remote, id)->0), id) == winner_of(
                local,
                remote,
                id,
            ),
            side_state(apply_winner(remote, id, winner_of(local, remote, id)->0), id) == winner_of(
                local,
                remote,
                id,
            ),
    {
    }

    /// No replica accepts a version below one that it has seen: the winner
    /// of an identifier carries a version at least as high as the state of
    /// either replica, and a winner of the same version is never older than
    /// the state it replaces.
    pub proof fn lemma_winner_is_not_stale(local: RepositoryState, remote: RepositoryState, id: u128)
        requires
            winner_of(local, remote, id) is Some,
        ensures
            side_state(local, id) matches Some(state) ==> winner_of(local, remote, id)->0.version()
                >= state.version(),
            side_state(remote, id) matches Some(state) ==> winner_of(local, remote, id)->0.version()
                >= state.version(),
            local.items.contains_key(id) ==> winner_of(local, remote, id)->0.version()
                >= local.items[id].sync_version,
            local.tombstones.contains_key(id) ==> winner_of(local, remote, id)->0.version()
                >= local.tombstones[id].sync_version,
            remote.items.contains_key(id) ==> winner_of(local, remote, id)->0.version()
                >= remote.items[id].sync_version,
            remote.tombstones.contains_key(id) ==> winner_of(local, remote, id)->0.version()
                >= remote.tombstones[id].sync_version,
            is_replay(local, remote, id) ==> winner_of(local, remote, id) == side_state(local, id),
    {
    }

    /// A run between replicas whose items can all be ciphertexts leaves
    /// only such items on both.
    pub proof fn lemma_run_keeps_blobs_valid(local: RepositoryState, remote: RepositoryState)
        requires
            blobs_are_valid(local),
            blobs_are_valid(remote),
        ensures
            blobs_are_valid(reconciled(local, local, remote, all_ids(local, remote))),
            blobs_are_valid(reconciled(remote, local, remote, all_ids(local, remote))),
    {
        let local_after = reconciled(local, local, remote, all_ids(local, remote));
        let remote_after = reconciled(remote, local, remote, all_ids(local, remote));
        assert forall|id: u128| #[trigger] local_after.items.contains_key(id) implies local_after.items[id].blob_is_valid() by {
            assert(local.items.contains_key(id) ==> local.items[id].blob_is_valid());
            assert(remote.items.contains_key(id) ==> remote.items[id].blob_is_valid());
        }
        assert forall|id: u128| #[trigger] remote_after.items.contains_key(id) implies remote_after.items[id].blob_is_valid() by {
            assert(local.items.contains_key(id) ==> local.items[id].blob_is_valid());
            assert(remote.items.contains_key(id) ==> remote.items[id].blob_is_valid());
        }
    }

    /// After a complete run every identifier has the same state on both
    /// replicas: the winner, or none where neither replica knew it.
    pub proof fn lemma_run_converges(local: RepositoryState, remote: RepositoryState, id: u128)
        ensures
            side_state(reconciled(local, local, remote, all_ids(local, remote)), id) == winner_of(
                local,
                remote,
                id,
            ),
            side_state(reconciled(remote, local, remote, all_ids(local, remote)), id) == winner_of(
                local,
                remote,
                id,
            ),
    {
    }

    /// A second run that follows a complete one without a mutation in
    /// between finds nothing to download, to upload or to report.
    pub proof fn lemma_second_run_is_idle(local: RepositoryState, remote: RepositoryState)
        ensures
            ({
                let local_after = reconciled(local, local, remote, all_ids(local, remote));
                let remote_after = reconciled(remote, local, remote, all_ids(local, remote));
                &&& download_ids(local_after, remote_after) == Set::<u128>::empty()
                &&& upload_ids(local_after, remote_after) == Set::<u128>::empty()
                &&& conflict_set(local_after, remote_after) == Set::<u128>::empty()
                &&& replay_ids(local_after, remote_after) == Set::<u128>::empty()
                &&& reconciled(
                    local_after,
                    local_after,
                    remote_after,
                    all_ids(local_after, remote_after),
                ) == local_after
                &&& reconciled(
                    remote_after,
                    local_after,
                    remote_after,
                    all_ids(local_after, remote_after),
                ) == remote_after
            }),
    {
        let local_after = reconciled(local, local, remote, all_ids(local, remote));
        let remote_after = reconciled(remote, local, remote, all_ids(local, remote));
        assert forall|id: u128|
            side_state(local_after, id) == side_state(remote_after, id) by {
            Self::lemma_run_converges(local, remote, id);
        }
        assert(download_ids(local_after, remote_after) =~= Set::<u128>::empty());
        assert(upload_ids(local_after, remote_after) =~= Set::<u128>::empty());
        assert(conflict_set(local_after, remote_after) =~= Set::<u128>::empty());
        assert(replay_ids(local_after, remote_after) =~= Set::<u128>::empty());
        let again_local = reconciled(
            local_after,
            local_after,
            remote_after,
            all_ids(local_after, remote_after),
        );
        assert(again_local.items =~= local_after.items);
        assert(again_local.tombstones =~= local_after.tombstones);
        let again_remote = reconciled(
            remote_after,
            local_after,
            remote_after,
            all_ids(local_after, remote_after),
        );
        assert(again_remote.items =~= remote_after.items);
        assert(again_remote.tombstones =~= remote_after.tombstones);
    }
}

fn push_all(target: &mut Vec<u128>, source: &Vec<u128>)
    ensures
        final(target)@ == old(target)@ + source@,
{
    let mut i: usize = 0;
    while i < source.len()
        invariant
            i <= source.len(),
            target@ == old(target)@ + source@.take(i as int),
        decreases source.len() - i,
    {
        target.push(source[i]);
        i += 1;
        assert(target@ =~= old(target)@ + source@.take(i as int));
    }
    assert(source@.take(i as int) =~= source@);
}

fn all_blobs_valid(listed: &Vec<VaultItem>) -> (valid: bool)
    ensures
        valid == (forall|i: int| 0 <= i < listed.len() ==> (#[trigger] listed[i])@.blob_is_valid()),
{
    let mut i: usize = 0;
    while i < listed.len()
        invariant
            i <= listed.len(),
            forall|k: int| 0 <= k < i ==> (#[trigger] listed[k])@.blob_is_valid(),
        decreases listed.len() - i,
    {
        if !SyncEngine::validate_encrypted_blob_only(&listed[i]) {
            return false;
        }
        i += 1;
    }
    true
}

fn apply_to<R: VaultRepository>(repo: &mut R, id: u128, winner: &SyncState) -> (r: Result<
    (),
    ChacrabError,
>)
    requires
        winner matches SyncState::Item(item) ==> item.id == id,
        winner matches SyncState::Tombstone(tombstone) ==> tombstone.id == id,
    ensures
        r is Ok ==> final(repo).state() == apply_winner(old(repo).state(), id, winner@),
        r matches Err(e) ==> e@ == ErrorKind::Storage && (final(repo).state() == old(repo).state()
            || final(repo).state() == half_applied(old(repo).state(), id, winner@)),
        final(repo).state().auth == old(repo).state().auth,
{
    match winner {
        SyncState::Item(item) => {
            match repo.upsert_item(item) {
                Ok(()) => {},
                Err(e) => {
                    return Err(e);
                },
            }
            match removal_outcome(repo.delete_tombstone(id)) {
                Ok(()) => {},
                Err(e) => {
                    return Err(e);
                },
            }
            proof {
                let expected = apply_winner(old(repo).state(), id, winner@);
                assert(repo.state().items =~= expected.items);
                assert(repo.state().tombstones =~= expected.tombstones);
            }
            Ok(())
        },
        SyncState::Tombstone(tombstone) => {
            match removal_outcome(repo.delete_item(id)) {
                Ok(()) => {},
                Err(e) => {
                    return Err(e);
                },
            }
            match repo.upsert_tombstone(tombstone) {
                Ok(()) => {},
                Err(e) => {
                    return Err(e);
                },
            }
            proof {
                let expected = apply_winner(old(repo).state(), id, winner@);
                assert(repo.state().items =~= expected.items);
                assert(repo.state().tombstones =~= expected.tombstones);
            }
            Ok(())
        },
    }
}

proof fn lemma_listed_ids_cover(
    local_items: Seq<VaultItem>,
    local_tombstones: Seq<SyncTombstone>,
    remote_items: Seq<VaultItem>,
    remote_tombstones: Seq<SyncTombstone>,
    local: RepositoryState,
    remote: RepositoryState,
)
    requires
        lists_items(local_items, local.items),
        lists_tombstones(local_tombstones, local.tombstones),
        lists_items(remote_items, remote.items),
        lists_tombstones(remote_tombstones, remote.tombstones),
    ensures
        (item_id_seq(local_items) + tombstone_id_seq(local_tombstones) + item_id_seq(remote_items)
            + tombstone_id_seq(remote_tombstones)).to_set() == all_ids(local, remote),
        item_id_seq(local_items).no_duplicates(),
        tombstone_id_seq(local_tombstones).no_duplicates(),
        item_id_seq(remote_items).no_duplicates(),
        tombstone_id_seq(remote_tombstones).no_duplicates(),
{
    let a = item_id_seq(local_items);
    let b = tombstone_id_seq(local_tombstones);
    let c = item_id_seq(remote_items);
    let d = tombstone_id_seq(remote_tombstones);
    let raw = a + b + c + d;
    assert forall|id: u128| raw.to_set().contains(id) <==> all_ids(local, remote).contains(id) by {
        if raw.to_set().contains(id) {
            let k = choose|k: int| 0 <= k < raw.len() && raw[k] == id;
            if k < a.len() {
                assert(local_items[k].id == id);
            } else if k < a.len() + b.len() {
                assert(local_tombstones[k - a.len()].id == id);
            } else if k < a.len() + b.len() + c.len() {
                assert(remote_items[k - a.len() - b.len()].id == id);
            } else {
                assert(remote_tombstones[k - a.len() - b.len() - c.len()].id == id);
            }
        }
        if local.items.contains_key(id) {
            let k = choose|k: int| 0 <= k < local_items.len() && (#[trigger] local_items[k].id) == id;
            assert(raw[k] == id);
        }
        if local.tombstones.contains_key(id) {
            let k = choose|k: int|
                0 <= k < local_tombstones.len() && (#[trigger] local_tombstones[k].id) == id;
            assert(raw[a.len() + k] == id);
        }
        if remote.items.contains_key(id) {
            let k = choose|k: int| 0 <= k < remote_items.len() && (#[trigger] remote_items[k].id) == id;
            assert(raw[a.len() + b.len() + k] == id);
        }
        if remote.tombstones.contains_key(id) {
            let k = choose|k: int|
                0 <= k < remote_tombstones.len() && (#[trigger] remote_tombstones[k].id) == id;
            assert(raw[a.len() + b.len() + c.len() + k] == id);
        }
    }
    assert(raw.to_set() =~= all_ids(local, remote));
}

/// One step of a sync run: the winner of an identifier, and the replicas
/// that do not hold it yet.
#[derive(Debug)]
pub struct SyncStep {
    pub id: u128,
    pub winner: SyncState,
    /// The local replica lacks the winner.
    pub download: bool,
    /// The remote replica lacks the winner.
    pub upload: bool,
}

/// What a sync run will do: the steps to apply, and the report of the run.
#[derive(Debug)]
pub struct SyncPlan {
    pub steps: Vec<SyncStep>,
    pub report: SyncReport,
}

/// The identifiers of `steps`, in order.
pub open spec fn step_ids(steps: Seq<SyncStep>) -> Seq<u128> {
    Seq::new(steps.len(), |i: int| steps[i].id)
}

/// `report` is the report of a run between the two replicas, which hold
/// finitely many identifiers: it counts the identifiers of each kind.
pub open spec fn reports(report: SyncReport, local: RepositoryState, remote: RepositoryState) -> bool {
    &&& all_ids(local, remote).finite()
    &&& report.downloaded == download_ids(local, remote).len()
    &&& report.uploaded == upload_ids(local, remote).len()
    &&& report.conflicts == conflict_set(local, remote).len()
    &&& report.replay_blocked == replay_ids(local, remote).len()
    &&& report.conflict_ids@.no_duplicates()
    &&& report.conflict_ids@.to_set() == conflict_set(local, remote)
}

/// `step` is the step of a run between the two replicas for its
/// identifier.
pub open spec fn step_is_for(step: SyncStep, local: RepositoryState, remote: RepositoryState) -> bool {
    &&& winner_of(local, remote, step.id) == Some(step.winner@)
    &&& step.download == needs_download(local, remote, step.id)
    &&& step.upload == needs_upload(local, remote, step.id)
    &&& step.download || step.upload
    &&& step.winner matches SyncState::Item(item) ==> item.id == step.id
    &&& step.winner matches SyncState::Tombstone(tombstone) ==> tombstone.id == step.id
}

/// `plan` is the plan of a run between the two replicas: one step for
/// every identifier whose winner a replica lacks, and the report.
pub open spec fn plans(plan: SyncPlan, local: RepositoryState, remote: RepositoryState) -> bool {
    &&& step_ids(plan.steps@).no_duplicates()
    &&& forall|k: int|
        0 <= k < plan.steps@.len() ==> step_is_for(#[trigger] plan.steps@[k], local, remote)
    &&& forall|id: u128|
        needs_download(local, remote, id) || needs_upload(local, remote, id) ==> step_ids(
            plan.steps@,
        ).contains(id)
    &&& reports(plan.report, local, remote)
}

/// What the two replicas hold decides the run: replicas with the same
/// items and tombstones have the same winners, steps and report.
proof fn lemma_records_decide(
    local: RepositoryState,
    remote: RepositoryState,
    other_local: RepositoryState,
    other_remote: RepositoryState,
)
    requires
        local.items == other_local.items,
        local.tombstones == other_local.tombstones,
        remote.items == other_remote.items,
        remote.tombstones == other_remote.tombstones,
    ensures
        forall|id: u128|
            #![trigger winner_of(other_local, other_remote, id)]
            winner_of(local, remote, id) == winner_of(other_local, other_remote, id),
        forall|id: u128|
            #![trigger needs_download(other_local, other_remote, id)]
            needs_download(local, remote, id) == needs_download(other_local, other_remote, id),
        forall|id: u128|
            #![trigger needs_upload(other_local, other_remote, id)]
            needs_upload(local, remote, id) == needs_upload(other_local, other_remote, id),
        download_ids(local, remote) == download_ids(other_local, other_remote),
        upload_ids(local, remote) == upload_ids(other_local, other_remote),
        conflict_set(local, remote) == conflict_set(other_local, other_remote),
        replay_ids(local, remote) == replay_ids(other_local, other_remote),
        all_ids(local, remote) == all_ids(other_local, other_remote),
        blobs_are_valid(local) == blobs_are_valid(other_local),
        blobs_are_valid(remote) == blobs_are_valid(other_remote),
{
    assert forall|id: u128|
        side_state(local, id) == side_state(other_local, id) && side_state(remote, id)
            == side_state(other_remote, id) by {}
    assert(download_ids(local, remote) =~= download_ids(other_local, other_remote));
    assert(upload_ids(local, remote) =~= upload_ids(other_local, other_remote));
    assert(conflict_set(local, remote) =~= conflict_set(other_local, other_remote));
    assert(replay_ids(local, remote) =~= replay_ids(other_local, other_remote));
    assert(all_ids(local, remote) =~= all_ids(other_local, other_remote));
}

/// Identifiers that a replica already holds the winner of make no
/// difference to what a run leaves on it.
proof fn lemma_reconciled_same(
    side: RepositoryState,
    local: RepositoryState,
    remote: RepositoryState,
    done: Set<u128>,
    all: Set<u128>,
)
    requires
        forall|id: u128|
            winner_of(local, remote, id) is Some && side_state(side, id) != winner_of(
                local,
                remote,
                id,
            ) ==> (done.contains(id) <==> all.contains(id)),
    ensures
        reconciled(side, local, remote, done) == reconciled(side, local, remote, all),
{
    let a = reconciled(side, local, remote, done);
    let b = reconciled(side, local, remote, all);
    assert(a.items =~= b.items);
    assert(a.tombstones =~= b.tombstones);
}

impl SyncEngine {
    /// Turns the snapshots of a sync run away if any item in them cannot be
    /// a ciphertext.
    pub fn validate_snapshots(local_items: &Vec<VaultItem>, remote_items: &Vec<VaultItem>) -> (r:
        Result<(), ChacrabError>)
        ensures
            r is Ok <==> (forall|i: int|
                0 <= i < local_items.len() ==> (#[trigger] local_items[i])@.blob_is_valid()) && (
            forall|i: int|
                0 <= i < remote_items.len() ==> (#[trigger] remote_items[i])@.blob_is_valid()),
            r matches Err(e) ==> e@ == ErrorKind::Config(invalid_payload_reason()),
    {
        if !all_blobs_valid(local_items) || !all_blobs_valid(remote_items) {
            return Err(ChacrabError::config("sync rejected invalid encrypted payload"));
        }
        Ok(())
    }

    /// Plans the reconciliation of two replicas from their snapshots.
    ///
    /// Fails with `Config` exactly when an item of either snapshot cannot
    /// be a ciphertext. Otherwise every identifier that either snapshot
    /// knows is resolved as [`resolve`] says; the plan holds one step for
    /// each identifier whose winner a replica lacks, and the report of the
    /// run.
    pub fn plan(
        local_items: &Vec<VaultItem>,
        local_tombstones: &Vec<SyncTombstone>,
        remote_items: &Vec<VaultItem>,
        remote_tombstones: &Vec<SyncTombstone>,
    ) -> (r: Result<SyncPlan, ChacrabError>)
        requires
            distinct_items(local_items@),
            distinct_tombstones(local_tombstones@),
            distinct_items(remote_items@),
            distinct_tombstones(remote_tombstones@),
        ensures
            r is Ok <==> blobs_are_valid(snapshot_state(local_items@, local_tombstones@))
                && blobs_are_valid(snapshot_state(remote_items@, remote_tombstones@)),
            r matches Err(e) ==> e@ == ErrorKind::Config(invalid_payload_reason()),
            r matches Ok(plan) ==> plans(
                plan,
                snapshot_state(local_items@, local_tombstones@),
                snapshot_state(remote_items@, remote_tombstones@),
            ),
    {
        let ghost l0 = snapshot_state(local_items@, local_tombstones@);
        let ghost r0 = snapshot_state(remote_items@, remote_tombstones@);
        proof {
            lemma_items_map(local_items@);
            lemma_tombstones_map(local_tombstones@);
            lemma_items_map(remote_items@);
            lemma_tombstones_map(remote_tombstones@);
        }
        match Self::validate_snapshots(local_items, remote_items) {
            Ok(()) => {},
            Err(e) => {
                proof {
                    if blobs_are_valid(l0) && blobs_are_valid(r0) {
                        assert forall|i: int| 0 <= i < local_items.len() implies (
                        #[trigger] local_items[i])@.blob_is_valid() by {
                            assert(l0.items.contains_key(local_items[i].id));
                        }
                        assert forall|i: int| 0 <= i < remote_items.len() implies (
                        #[trigger] remote_items[i])@.blob_is_valid() by {
                            assert(r0.items.contains_key(remote_items[i].id));
                        }
                    }
                }
                return Err(e);
            },
        }
        proof {
            assert forall|id: u128| #[trigger] l0.items.contains_key(id) implies l0.items[id].blob_is_valid() by {
                let k = choose|k: int| 0 <= k < local_items.len() && (#[trigger] local_items[k].id) == id;
                assert(local_items[k]@.blob_is_valid());
            }
            assert forall|id: u128| #[trigger] r0.items.contains_key(id) implies r0.items[id].blob_is_valid() by {
                let k = choose|k: int| 0 <= k < remote_items.len() && (#[trigger] remote_items[k].id) == id;
                assert(remote_items[k]@.blob_is_valid());
            }
            lemma_listed_ids_cover(
                local_items@,
                local_tombstones@,
                remote_items@,
                remote_tombstones@,
                l0,
                r0,
            );
        }
        let local_item_ids = ids_of_items(local_items);
        let local_tombstone_ids = ids_of_tombstones(local_tombstones);
        let remote_item_ids = ids_of_items(remote_items);
        let remote_tombstone_ids = ids_of_tombstones(remote_tombstones);
        let local_item_index = index_ids(&local_item_ids);
        let local_tombstone_index = index_ids(&local_tombstone_ids);
        let remote_item_index = index_ids(&remote_item_ids);
        let remote_tombstone_index = index_ids(&remote_tombstone_ids);
        let mut raw: Vec<u128> = Vec::new();
        push_all(&mut raw, &local_item_ids);
        push_all(&mut raw, &local_tombstone_ids);
        push_all(&mut raw, &remote_item_ids);
        push_all(&mut raw, &remote_tombstone_ids);
        assert(raw@ =~= item_id_seq(local_items@) + tombstone_id_seq(local_tombstones@)
            + item_id_seq(remote_items@) + tombstone_id_seq(remote_tombstones@));
        let ids = distinct_ids(&raw);

        let mut report = SyncReport::default();
        let mut steps: Vec<SyncStep> = Vec::new();
        proof {
            assert(ids@.take(0).to_set() =~= Set::<u128>::empty());
            assert(tallied(l0, r0, Tally::Download, Set::empty()) =~= Set::<u128>::empty());
            assert(tallied(l0, r0, Tally::Upload, Set::empty()) =~= Set::<u128>::empty());
            assert(tallied(l0, r0, Tally::Conflict, Set::empty()) =~= Set::<u128>::empty());
            assert(tallied(l0, r0, Tally::Replay, Set::empty()) =~= Set::<u128>::empty());
            assert(report.conflict_ids@.to_set() =~= Set::<u128>::empty());
        }
        let mut k: usize = 0;
        while k < ids.len()
            invariant
                k <= ids.len(),
                ids@.no_duplicates(),
                ids@.to_set() == all_ids(l0, r0),
                l0 == snapshot_state(local_items@, local_tombstones@),
                r0 == snapshot_state(remote_items@, remote_tombstones@),
                lists_items(local_items@, l0.items),
                lists_tombstones(local_tombstones@, l0.tombstones),
                lists_items(remote_items@, r0.items),
                lists_tombstones(remote_tombstones@, r0.tombstones),
                indexes(local_item_index@, item_id_seq(local_items@)),
                indexes(local_tombstone_index@, tombstone_id_seq(local_tombstones@)),
                indexes(remote_item_index@, item_id_seq(remote_items@)),
                indexes(remote_tombstone_index@, tombstone_id_seq(remote_tombstones@)),
                report.downloaded == tallied(l0, r0, Tally::Download, ids@.take(k as int).to_set()).len(),
                report.uploaded == tallied(l0, r0, Tally::Upload, ids@.take(k as int).to_set()).len(),
                report.conflicts == tallied(l0, r0, Tally::Conflict, ids@.take(k as int).to_set()).len(),
                report.replay_blocked == tallied(
                    l0,
                    r0,
                    Tally::Replay,
                    ids@.take(k as int).to_set(),
                ).len(),
                report.conflict_ids@.no_duplicates(),
                report.conflict_ids@.to_set() == tallied(
                    l0,
                    r0,
                    Tally::Conflict,
                    ids@.take(k as int).to_set(),
                ),
                step_ids(steps@).no_duplicates(),
                forall|m: int| 0 <= m < steps@.len() ==> step_is_for(#[trigger] steps@[m], l0, r0),
                forall|m: int|
                    0 <= m < steps@.len() ==> ids@.take(k as int).to_set().contains(
                        #[trigger] step_ids(steps@)[m],
                    ),
                forall|id: u128|
                    ids@.take(k as int).to_set().contains(id) && (needs_download(l0, r0, id)
                        || needs_upload(l0, r0, id)) ==> step_ids(steps@).contains(id),
            decreases ids.len() - k,
        {
            let id: u128 = ids[k];
            let ghost done = ids@.take(k as int).to_set();
            proof {
                assert(ids@.take(k as int + 1) =~= ids@.take(k as int).push(id));
                ids@.take(k as int).lemma_push_to_set_commute(id);
                assert(ids@.take(k as int + 1).to_set() =~= done.insert(id));
                ids@.take(k as int).unique_seq_to_set();
                assert(!done.contains(id)) by {
                    if done.contains(id) {
                        let m = choose|m: int| 0 <= m < k && ids@.take(k as int)[m] == id;
                        assert(ids@[m] == ids@[k as int]);
                    }
                }
                lemma_tally_bounded(l0, r0, Tally::Download, done);
                lemma_tally_bounded(l0, r0, Tally::Upload, done);
                lemma_tally_bounded(l0, r0, Tally::Conflict, done);
                lemma_tally_bounded(l0, r0, Tally::Replay, done);
                lemma_tally_step(l0, r0, Tally::Download, done, id);
                lemma_tally_step(l0, r0, Tally::Upload, done, id);
                lemma_tally_step(l0, r0, Tally::Conflict, done, id);
                lemma_tally_step(l0, r0, Tally::Replay, done, id);
            }
            let local_state = side_lookup(
                local_items,
                &local_item_index,
                local_tombstones,
                &local_tombstone_index,
                id,
                Ghost(l0),
            );
            let remote_state = side_lookup(
                remote_items,
                &remote_item_index,
                remote_tombstones,
                &remote_tombstone_index,
                id,
                Ghost(r0),
            );
            let ghost steps_before = steps@;
            match Self::resolve_state(&local_state, &remote_state) {
                None => {},
                Some(resolution) => {
                    if resolution.conflict {
                        report.conflicts += 1;
                        let ghost before = report.conflict_ids@;
                        report.conflict_ids.push(id);
                        proof {
                            before.lemma_push_to_set_commute(id);
                            assert(report.conflict_ids@.to_set() =~= before.to_set().insert(id));
                            assert(report.conflict_ids@.no_duplicates()) by {
                                assert forall|a: int, b: int|
                                    0 <= a < b < report.conflict_ids@.len() implies report.conflict_ids@[a]
                                    != report.conflict_ids@[b] by {
                                    if b == before.len() {
                                        assert(before.to_set().contains(before[a]));
                                    }
                                }
                            }
                        }
                    }
                    if resolution.replay_blocked {
                        report.replay_blocked += 1;
                    }
                    let download: bool = !Self::state_matches_winner(
                        &local_state,
                        &resolution.winner,
                    );
                    let upload: bool = !Self::state_matches_winner(
                        &remote_state,
                        &resolution.winner,
                    );
                    if download {
                        report.downloaded += 1;
                    }
                    if upload {
                        report.uploaded += 1;
                    }
                    if download || upload {
                        steps.push(SyncStep { id, winner: resolution.winner, download, upload });
                    }
                },
            }
            proof {
                let now_done = done.insert(id);
                assert forall|m: int| 0 <= m < steps@.len() implies step_is_for(
                    #[trigger] steps@[m],
                    l0,
                    r0,
                ) && now_done.contains(step_ids(steps@)[m]) by {
                    if m < steps_before.len() {
                        assert(steps@[m] == steps_before[m]);
                        assert(done.contains(step_ids(steps_before)[m]));
                    }
                }
                assert(step_ids(steps@).no_duplicates()) by {
                    assert forall|a: int, b: int|
                        0 <= a < b < steps@.len() implies step_ids(steps@)[a] != step_ids(
                        steps@,
                    )[b] by {
                        if b < steps_before.len() {
                            assert(step_ids(steps_before)[a] != step_ids(steps_before)[b]);
                        } else {
                            assert(done.contains(step_ids(steps_before)[a]));
                        }
                    }
                }
                assert forall|other: u128|
                    now_done.contains(other) && (needs_download(l0, r0, other) || needs_upload(
                        l0,
                        r0,
                        other,
                    )) implies step_ids(steps@).contains(other) by {
                    if other == id {
                        assert(step_ids(steps@)[steps@.len() - 1] == id);
                    } else {
                        assert(step_ids(steps_before).contains(other));
                        let m = choose|m: int|
                            0 <= m < steps_before.len() && step_ids(steps_before)[m] == other;
                        assert(step_ids(steps@)[m] == other);
                    }
                }
            }
            k += 1;
        }
        proof {
            assert(ids@.take(k as int) =~= ids@);
            lemma_tally_covers(l0, r0);
        }
        Ok(SyncPlan { steps, report })
    }

    /// Reconciles the local and the remote replica.
    ///
    /// Both replicas are read first. If an item of either cannot be a
    /// ciphertext the run fails before anything is written. Otherwise the
    /// run is planned as [`SyncEngine::plan`] says and the winner of every
    /// step is applied to each replica that does not hold it yet: a
    /// winning item is stored and the tombstone removed, a winning
    /// tombstone is stored and the item removed. A run that succeeds leaves
    /// both replicas as [`reconciled`] describes, with the same state for
    /// every identifier, and reports how many identifiers it downloaded,
    /// uploaded, found in conflict and turned away as replays.
    ///
    /// A failing repository call ends the run with `Storage`; steps applied
    /// before it stay applied, and the step that it cut short is applied
    /// not at all or by half, as [`left_for`] says of every identifier. A
    /// record that is absent where one is to be removed is no failure.
    pub fn sync_bidirectional<R: VaultRepository>(local: &mut R, remote: &mut R) -> (r: Result<
        SyncReport,
        ChacrabError,
    >)
        ensures
            final(local).state().auth == old(local).state().auth,
            final(remote).state().auth == old(remote).state().auth,
            !(blobs_are_valid(old(local).state()) && blobs_are_valid(old(remote).state())) ==> r is Err
                && final(local).state() == old(local).state() && final(remote).state() == old(
                remote,
            ).state(),
            r matches Ok(report) ==> {
                let before_local = old(local).state();
                let before_remote = old(remote).state();
                &&& final(local).state() == reconciled(
                    before_local,
                    before_local,
                    before_remote,
                    all_ids(before_local, before_remote),
                )
                &&& final(remote).state() == reconciled(
                    before_remote,
                    before_local,
                    before_remote,
                    all_ids(before_local, before_remote),
                )
                &&& forall|id: u128|
                    side_state(final(local).state(), id) == winner_of(
                        before_local,
                        before_remote,
                        id,
                    ) && side_state(final(remote).state(), id) == winner_of(
                        before_local,
                        before_remote,
                        id,
                    )
                &&& reports(report, before_local, before_remote)
                &&& blobs_are_valid(final(local).state())
                &&& blobs_are_valid(final(remote).state())
            },
            r matches Err(e) ==> e@ == ErrorKind::Storage || (e@ == ErrorKind::Config(
                invalid_payload_reason(),
            ) && !(blobs_are_valid(old(local).state()) && blobs_are_valid(old(remote).state()))),
            forall|id: u128| #[trigger]
                left_for(
                    old(local).state(),
                    final(local).state(),
                    old(local).state(),
                    old(remote).state(),
                    id,
                ),
            forall|id: u128| #[trigger]
                left_for(
                    old(remote).state(),
                    final(remote).state(),
                    old(local).state(),
                    old(remote).state(),
                    id,
                ),
    {
        let ghost l0 = local.state();
        let ghost r0 = remote.state();
        let local_items = match local.list_items() {
            Ok(listed) => listed,
            Err(e) => {
                return Err(e);
            },
        };
        let remote_items = match remote.list_items() {
            Ok(listed) => listed,
            Err(e) => {
                return Err(e);
            },
        };
        let local_tombstones = match local.list_tombstones() {
            Ok(listed) => listed,
            Err(e) => {
                return Err(e);
            },
        };
        let remote_tombstones = match remote.list_tombstones() {
            Ok(listed) => listed,
            Err(e) => {
                return Err(e);
            },
        };
        proof {
            lemma_listing_is_the_state(local_items@, local_tombstones@, l0);
            lemma_listing_is_the_state(remote_items@, remote_tombstones@, r0);
            lemma_records_decide(
                snapshot_state(local_items@, local_tombstones@),
                snapshot_state(remote_items@, remote_tombstones@),
                l0,
                r0,
            );
        }
        let plan = match Self::plan(
            &local_items,
            &local_tombstones,
            &remote_items,
            &remote_tombstones,
        ) {
            Ok(plan) => plan,
            Err(e) => {
                return Err(e);
            },
        };
        proof {
            lemma_reconciled_nothing_done(l0, l0, r0);
            lemma_reconciled_nothing_done(r0, l0, r0);
            assert(step_ids(plan.steps@).take(0).to_set() =~= Set::<u128>::empty());
            assert forall|m: int| 0 <= m < plan.steps@.len() implies step_is_for(
                #[trigger] plan.steps@[m],
                l0,
                r0,
            ) by {
                assert(step_is_for(
                    plan.steps@[m],
                    snapshot_state(local_items@, local_tombstones@),
                    snapshot_state(remote_items@, remote_tombstones@),
                ));
            }
        }
        let mut k: usize = 0;
        while k < plan.steps.len()
            invariant
                k <= plan.steps.len(),
                step_ids(plan.steps@).no_duplicates(),
                forall|m: int|
                    0 <= m < plan.steps@.len() ==> step_is_for(#[trigger] plan.steps@[m], l0, r0),
                local.state() == reconciled(
                    l0,
                    l0,
                    r0,
                    step_ids(plan.steps@).take(k as int).to_set(),
                ),
                remote.state() == reconciled(
                    r0,
                    l0,
                    r0,
                    step_ids(plan.steps@).take(k as int).to_set(),
                ),
                l0 == old(local).state(),
                r0 == old(remote).state(),
                blobs_are_valid(l0),
                blobs_are_valid(r0),
            decreases plan.steps.len() - k,
        {
            let step = &plan.steps[k];
            let ghost ids = step_ids(plan.steps@);
            let ghost done = ids.take(k as int).to_set();
            proof {
                assert(ids[k as int] == step.id);
                assert(ids.take(k as int + 1) =~= ids.take(k as int).push(step.id));
                ids.take(k as int).lemma_push_to_set_commute(step.id);
                assert(ids.take(k as int + 1).to_set() =~= done.insert(step.id));
                assert(!done.contains(step.id)) by {
                    if done.contains(step.id) {
                        let m = choose|m: int| 0 <= m < k && ids.take(k as int)[m] == step.id;
                        assert(ids[m] == ids[k as int]);
                    }
                }
                assert(step_is_for(*step, l0, r0));
            }
            if step.download {
                match apply_to(local, step.id, &step.winner) {
                    Ok(()) => {},
                    Err(e) => {
                        proof {
                            lemma_cut_short(l0, l0, r0, done, step.id, local.state());
                            lemma_reconciled_left(r0, l0, r0, done);
                        }
                        return Err(e);
                    },
                }
                proof {
                    lemma_reconciled_apply(l0, l0, r0, done, step.id);
                }
            } else {
                proof {
                    lemma_reconciled_skip(l0, l0, r0, done, step.id);
                }
            }
            if step.upload {
                match apply_to(remote, step.id, &step.winner) {
                    Ok(()) => {},
                    Err(e) => {
                        proof {
                            lemma_reconciled_left(l0, l0, r0, done.insert(step.id));
                            lemma_cut_short(r0, l0, r0, done, step.id, remote.state());
                        }
                        return Err(e);
                    },
                }
                proof {
                    lemma_reconciled_apply(r0, l0, r0, done, step.id);
                }
            } else {
                proof {
                    lemma_reconciled_skip(r0, l0, r0, done, step.id);
                }
            }
            k += 1;
        }
        proof {
            let ids = step_ids(plan.steps@);
            assert(ids.take(k as int) =~= ids);
            assert forall|id: u128|
                (needs_download(l0, r0, id) || needs_upload(l0, r0, id)) implies (ids.to_set().contains(
                    id,
                ) <==> all_ids(l0, r0).contains(id)) by {
                assert(step_ids(plan.steps@).contains(id));
            }
            lemma_reconciled_same(l0, l0, r0, ids.to_set(), all_ids(l0, r0));
            lemma_reconciled_same(r0, l0, r0, ids.to_set(), all_ids(l0, r0));
            assert forall|id: u128|
                side_state(local.state(), id) == winner_of(l0, r0, id) && side_state(
                    remote.state(),
                    id,
                ) == winner_of(l0, r0, id) by {
                Self::lemma_run_converges(l0, r0, id);
            }
            Self::lemma_run_keeps_blobs_valid(l0, r0);
            lemma_reconciled_left(l0, l0, r0, all_ids(l0, r0));
            lemma_reconciled_left(r0, l0, r0, all_ids(l0, r0));
        }
        Ok(plan.report)
    }
}

} // verus!
