//! Duplicate groups as the user interface shows them: who is in a group,
//! why the group exists, and the shared snapshot of the most recent
//! detection pass.

use vstd::prelude::*;
use crate::records::VideoRow;

verus! {

/// One video in a duplicate group.
pub struct DuplicateGroupMember {
    pub video_id: String,
    pub file_path: String,
    pub file_name: String,
    pub file_size: i64,
    pub status: String,
    pub created_at: String,
}

impl Clone for DuplicateGroupMember {
    fn clone(&self) -> (r: Self)
        ensures
            r == *self,
    {
        DuplicateGroupMember {
            video_id: self.video_id.clone(),
            file_path: self.file_path.clone(),
            file_name: self.file_name.clone(),
            file_size: self.file_size,
            status: self.status.clone(),
            created_at: self.created_at.clone(),
        }
    }
}

/// The group member a catalog row describes.
pub open spec fn member_of(row: VideoRow) -> DuplicateGroupMember {
    DuplicateGroupMember {
        video_id: row.id,
        file_path: row.file_path,
        file_name: row.file_name,
        file_size: row.file_size,
        status: row.status,
        created_at: row.created_at,
    }
}

impl From<VideoRow> for DuplicateGroupMember {
    fn from(row: VideoRow) -> (m: DuplicateGroupMember) {
        DuplicateGroupMember {
            video_id: row.id,
            file_path: row.file_path,
            file_name: row.file_name,
            file_size: row.file_size,
            status: row.status,
            created_at: row.created_at,
        }
    }
}

impl vstd::std_specs::convert::FromSpecImpl<VideoRow> for DuplicateGroupMember {
    open spec fn obeys_from_spec() -> bool {
        true
    }

    open spec fn from_spec(row: VideoRow) -> DuplicateGroupMember {
        member_of(row)
    }
}

/// Why a group of videos is reported as duplicates.
#[derive(Clone, Copy, Debug, PartialEq, Eq, Structural)]
pub enum DuplicateGroupKind {
    /// Online videos sharing quick hash and size whose full hashes match.
    QuickHashConfirmed,
    /// A recorded path-collision pair whose full hashes match.
    PathCollisionConfirmed,
    /// A recorded path-collision pair whose full hashes are unknown or
    /// differ; still reported, since a collision alone makes a candidate.
    PathCollisionUnconfirmed,
}

/// Videos reported together as duplicates, and why.
pub struct DuplicateGroup {
    pub kind: DuplicateGroupKind,
    pub members: Vec<DuplicateGroupMember>,
}

impl View for DuplicateGroup {
    type V = (DuplicateGroupKind, Seq<DuplicateGroupMember>);

    open spec fn view(&self) -> (DuplicateGroupKind, Seq<DuplicateGroupMember>) {
        (self.kind, self.members@)
    }
}

/// The groups of a list, each by its view.
pub open spec fn groups_view(groups: Seq<DuplicateGroup>) -> Seq<
    (DuplicateGroupKind, Seq<DuplicateGroupMember>),
> {
    groups.map_values(|g: DuplicateGroup| g@)
}

impl Clone for DuplicateGroup {
    fn clone(&self) -> (r: Self)
        ensures
            r@ == self@,
    {
        let members = self.members.clone();
        assert(members@ =~= self.members@);
        DuplicateGroup { kind: self.kind, members }
    }
}

/// The kind of group a recorded path-collision pair forms: confirmed when
/// both full hashes are known and equal, unconfirmed otherwise.
pub fn collision_group_kind(hash_a: &Option<String>, hash_b: &Option<String>) -> (k:
    DuplicateGroupKind)
    ensures
        k == (if hash_a is Some && hash_b is Some && hash_a->0@ == hash_b->0@ {
            DuplicateGroupKind::PathCollisionConfirmed
        } else {
            DuplicateGroupKind::PathCollisionUnconfirmed
        }),
{
    match (hash_a, hash_b) {
        (Some(a), Some(b)) => {
            if *a == *b {
                DuplicateGroupKind::PathCollisionConfirmed
            } else {
                DuplicateGroupKind::PathCollisionUnconfirmed
            }
        },
        _ => DuplicateGroupKind::PathCollisionUnconfirmed,
    }
}

/// The members a list of id lookups yields: each row that was found, in
/// order; an id whose row has vanished is dropped.
pub open spec fn found_members(lookups: Seq<Option<VideoRow>>) -> Seq<DuplicateGroupMember>
    decreases lookups.len(),
{
    if lookups.len() == 0 {
        Seq::empty()
    } else {
        let rest = found_members(lookups.drop_last());
        match lookups.last() {
            Some(row) => rest.push(member_of(row)),
            None => rest,
        }
    }
}

/// Every lookup that found a row yields one member built from that row, in
/// lookup order, whatever the row's status; only lookups that found nothing
/// are dropped. So the members are the found rows, and when every lookup
/// found its row there is one member per lookup, carrying that row's id and
/// status.
pub proof fn lemma_found_rows_all_become_members(lookups: Seq<Option<VideoRow>>)
    ensures
        found_members(lookups) == lookups.filter(|o: Option<VideoRow>| o is Some).map_values(
            |o: Option<VideoRow>| member_of(o->0),
        ),
        found_members(lookups).len() == lookups.filter(|o: Option<VideoRow>| o is Some).len(),
        (forall|i: int| 0 <= i < lookups.len() ==> #[trigger] lookups[i] is Some) ==> {
            &&& found_members(lookups).len() == lookups.len()
            &&& forall|i: int|
                0 <= i < lookups.len() ==> {
                    &&& (#[trigger] found_members(lookups)[i]).video_id == lookups[i]->0.id
                    &&& found_members(lookups)[i].status == lookups[i]->0.status
                    &&& found_members(lookups)[i].file_path == lookups[i]->0.file_path
                }
        },
    decreases lookups.len(),
{
    let pred = |o: Option<VideoRow>| o is Some;
    let f = |o: Option<VideoRow>| member_of(o->0);
    if lookups.len() > 0 {
        let init = lookups.drop_last();
        lemma_found_rows_all_become_members(init);
        assert(lookups.filter(pred) == if pred(lookups.last()) {
            init.filter(pred).push(lookups.last())
        } else {
            init.filter(pred)
        }) by {
            reveal_with_fuel(Seq::filter, 1);
        }
        if pred(lookups.last()) {
            assert(init.filter(pred).push(lookups.last()).map_values(f) =~= init.filter(pred).map_values(
                f,
            ).push(f(lookups.last())));
        }
        if forall|i: int| 0 <= i < lookups.len() ==> #[trigger] lookups[i] is Some {
            assert forall|i: int| 0 <= i < init.len() implies #[trigger] init[i] is Some by {
                assert(init[i] == lookups[i]);
            }
            assert(lookups[lookups.len() - 1] is Some);
        }
    } else {
        assert(lookups.filter(pred) =~= Seq::<Option<VideoRow>>::empty());
    }
}

/// Turns the rows looked up for a group's ids into its members.
pub fn hydrate_members(lookups: Vec<Option<VideoRow>>) -> (r: Vec<DuplicateGroupMember>)
    ensures
        r@ == found_members(lookups@),
        r@ == lookups@.filter(|o: Option<VideoRow>| o is Some).map_values(
            |o: Option<VideoRow>| member_of(o->0),
        ),
        (forall|i: int| 0 <= i < lookups.len() ==> #[trigger] lookups[i] is Some) ==> r.len()
            == lookups.len(),
{
    let ghost all = lookups@;
    let n: usize = lookups.len();
    let mut rest = lookups;
    let mut r: Vec<DuplicateGroupMember> = Vec::new();
    let mut taken: usize = 0;
    while rest.len() > 0
        invariant
            all.len() == n,
            taken + rest.len() == all.len(),
            forall|i: int| 0 <= i < rest.len() ==> rest[i] == all[taken + i],
            r@ == found_members(all.subrange(0, taken as int)),
        decreases rest.len(),
    {
        let item = rest.remove(0);
        assert(all.subrange(0, taken + 1).drop_last() =~= all.subrange(0, taken as int));
        assert(all.subrange(0, taken + 1).last() == item);
        match item {
            Some(row) => r.push(DuplicateGroupMember::from(row)),
            None => {},
        }
        taken = taken + 1;
    }
    proof {
        lemma_found_rows_all_become_members(all);
    }
    assert(all.subrange(0, taken as int) =~= all);
    r
}

/// The full hash a duplicate check should use for a row: the one already
/// recorded, or else (`None`) one that still has to be computed.
pub fn known_full_hash(row: &VideoRow) -> (r: Option<String>)
    ensures
        r == row.full_hash,
{
    match &row.full_hash {
        Some(h) => Some(h.clone()),
        None => None,
    }
}

/// The most recently completed detection pass's groups, so listing them
/// never has to re-run detection.
pub struct DuplicateGroupsState {
    groups: Vec<DuplicateGroup>,
}

impl View for DuplicateGroupsState {
    type V = Seq<(DuplicateGroupKind, Seq<DuplicateGroupMember>)>;

    closed spec fn view(&self) -> Seq<(DuplicateGroupKind, Seq<DuplicateGroupMember>)> {
        groups_view(self.groups@)
    }
}

impl DuplicateGroupsState {
    /// A snapshot holding no groups yet.
    pub fn new() -> (s: DuplicateGroupsState)
        ensures
            s@ == Seq::<(DuplicateGroupKind, Seq<DuplicateGroupMember>)>::empty(),
    {
        let s = DuplicateGroupsState { groups: Vec::new() };
        assert(groups_view(s.groups@) =~= Seq::<(DuplicateGroupKind, Seq<DuplicateGroupMember>)>::empty());
        s
    }

    /// The groups of the last snapshot set.
    pub fn get(&self) -> (r: Vec<DuplicateGroup>)
        ensures
            groups_view(r@) == self@,
    {
        let r = self.groups.clone();
        assert(groups_view(r@) =~= groups_view(self.groups@)) by {
            assert forall|i: int| 0 <= i < r.len() implies #[trigger] r[i]@ == self.groups[i]@ by {
                assert(cloned(self.groups[i], r[i]));
            }
        }
        r
    }

    /// Replaces the snapshot; a later `get` returns exactly `groups`.
    pub fn set(&mut self, groups: Vec<DuplicateGroup>)
        ensures
            final(self)@ == groups_view(groups@),
    {
        self.groups = groups;
    }
}

impl Default for DuplicateGroupsState {
    fn default() -> (s: DuplicateGroupsState)
        ensures
            s@ == Seq::<(DuplicateGroupKind, Seq<DuplicateGroupMember>)>::empty(),
    {
        DuplicateGroupsState::new()
    }
}

} // verus!
