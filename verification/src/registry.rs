//! The group registry: the single source of truth for every group's device
//! descriptors and snapshots, mutated only through the operations here. The
//! caller serializes access (one coarse lock around every call).

use vstd::prelude::*;

use crate::device_manager::DeviceManager;
use crate::device_spec::DeviceSpec;
use crate::file_sys::FileSystem;
use crate::id_map::IdMap;
use crate::ids::Uid;
use crate::ids::fresh_uid;

verus! {

/// Why a registry lookup found nothing: the group is absent, or the group
/// exists but holds no entry for the device.
#[derive(Clone, Copy, Debug, PartialEq, Eq, Structural)]
pub enum LookupError {
    GroupNotFound,
    DeviceNotFound,
}

pub struct ClientGroup {
    client_group: IdMap<DeviceManager>,
}

/// What creating a group changes: the fresh id maps to an empty group and
/// every other group is untouched.
pub open spec fn create_group_transition(pre: ClientGroup, post: ClientGroup, id: Uid) -> bool {
    &&& post.groups().dom() == pre.groups().dom().insert(id.value)
    &&& post.groups().contains_key(id.value)
    &&& post.groups()[id.value].specs() == Map::<u128, DeviceSpec>::empty()
    &&& post.groups()[id.value].snapshots() == Map::<u128, FileSystem>::empty()
    &&& forall|k: u128|
        k != id.value && #[trigger] pre.groups().contains_key(k) ==> post.groups()[k]
            == pre.groups()[k]
}

/// What deleting a group changes: the id is gone and the answer says whether
/// it had been there.
pub open spec fn delete_group_transition(
    pre: ClientGroup,
    post: ClientGroup,
    id: Uid,
    r: bool,
) -> bool {
    &&& r == pre.groups().contains_key(id.value)
    &&& post.groups() == pre.groups().remove(id.value)
}

impl ClientGroup {
    pub closed spec fn wf(self) -> bool {
        &&& self.client_group.wf()
        &&& forall|k: u128|
            #[trigger] self.client_group@.contains_key(k) ==> self.client_group@[k].wf()
    }

    /// All groups, by group id.
    pub closed spec fn groups(self) -> Map<u128, DeviceManager> {
        self.client_group@
    }

    pub fn new() -> (r: ClientGroup)
        ensures
            r.wf(),
            r.groups() == Map::<u128, DeviceManager>::empty(),
    {
        ClientGroup { client_group: IdMap::new() }
    }

    /// Inserts a group under the given id, replacing any group already there.
    pub fn add_device_manager(&mut self, id: Uid, device_manager: DeviceManager) -> (r: Result<
        (),
        LookupError,
    >)
        requires
            old(self).wf(),
            device_manager.wf(),
        ensures
            final(self).wf(),
            r is Ok,
            final(self).groups() == old(self).groups().insert(id.value, device_manager),
    {
        self.client_group.insert(id.value, device_manager);
        Ok(())
    }

    pub fn get_device_manager(&self, id: Uid) -> (r: Option<&DeviceManager>)
        requires
            self.wf(),
        ensures
            match r {
                Some(dm) => self.groups().contains_key(id.value) && *dm == self.groups()[id.value]
                    && dm.wf(),
                None => !self.groups().contains_key(id.value),
            },
    {
        self.client_group.get(id.value)
    }

    /// Removes a group; the answer says whether it had been there.
    pub fn delete_device_manager(&mut self, id: Uid) -> (r: bool)
        requires
            old(self).wf(),
        ensures
            final(self).wf(),
            delete_group_transition(*old(self), *final(self), id, r),
    {
        match self.client_group.remove(id.value) {
            Some(_) => true,
            None => false,
        }
    }

    /// Allocates a fresh group id, inserts an empty group under it, and
    /// returns the id.
    pub fn create_group(&mut self) -> (r: Uid)
        requires
            old(self).wf(),
        ensures
            final(self).wf(),
            create_group_transition(*old(self), *final(self), r),
    {
        let id = fresh_uid();
        let device_manager = DeviceManager::new();
        self.client_group.insert(id.value, device_manager);
        proof {
            assert(final(self).groups().dom() =~= old(self).groups().dom().insert(id.value));
        }
        id
    }

    /// Registers or replaces one device's descriptor in one group; the
    /// answer says whether the group exists.
    pub fn upsert_spec(&mut self, group: Uid, device: Uid, device_spec: DeviceSpec) -> (r: bool)
        requires
            old(self).wf(),
        ensures
            final(self).wf(),
            r == old(self).groups().contains_key(group.value),
            !r ==> final(self).groups() == old(self).groups(),
            r ==> final(self).groups().dom() == old(self).groups().dom(),
            r ==> final(self).groups()[group.value].specs() == old(self).groups()[group.value].specs().insert(device.value, device_spec),
            r ==> final(self).groups()[group.value].snapshots() == old(self).groups()[group.value].snapshots(),
            forall|k: u128|
                k != group.value && #[trigger] old(self).groups().contains_key(k) ==> final(self).groups()[k] == old(self).groups()[k],
    {
        let ghost pre = self.client_group@;
        match self.client_group.remove(group.value) {
            Some(mut device_manager) => {
                device_manager.add_device_spec(device, device_spec);
                self.client_group.insert(group.value, device_manager);
                proof {
                    assert(final(self).groups() =~= pre.insert(group.value, device_manager));
                    assert(final(self).groups().dom() =~= pre.dom());
                }
                true
            },
            None => {
                proof {
                    assert(final(self).groups() =~= pre);
                }
                false
            },
        }
    }

    /// One device's descriptor in one group, or which of the two was absent.
    pub fn get_spec(&self, group: Uid, device: Uid) -> (r: Result<&DeviceSpec, LookupError>)
        requires
            self.wf(),
        ensures
            match r {
                Ok(s) => self.groups().contains_key(group.value) && self.groups()[group.value].specs().contains_key(device.value) && *s == self.groups()[group.value].specs()[device.value],
                Err(e) => (e is GroupNotFound <==> !self.groups().contains_key(group.value)) && (
                e is DeviceNotFound ==> !self.groups()[group.value].specs().contains_key(
                    device.value,
                )),
            },
    {
        match self.client_group.get(group.value) {
            Some(device_manager) => match device_manager.get_device_spec(device) {
                Some(s) => Ok(s),
                None => Err(LookupError::DeviceNotFound),
            },
            None => Err(LookupError::GroupNotFound),
        }
    }

    /// Removes one device's descriptor from one group; the answer says
    /// whether both the group and the descriptor were there.
    pub fn delete_spec(&mut self, group: Uid, device: Uid) -> (r: bool)
        requires
            old(self).wf(),
        ensures
            final(self).wf(),
            r == (old(self).groups().contains_key(group.value) && old(self).groups()[group.value].specs().contains_key(device.value)),
            !old(self).groups().contains_key(group.value) ==> final(self).groups() == old(self).groups(),
            old(self).groups().contains_key(group.value) ==> {
                &&& final(self).groups().dom() == old(self).groups().dom()
                &&& final(self).groups()[group.value].specs() == old(self).groups()[group.value].specs().remove(device.value)
                &&& final(self).groups()[group.value].snapshots() == old(self).groups()[group.value].snapshots()
            },
            forall|k: u128|
                k != group.value && #[trigger] old(self).groups().contains_key(k) ==> final(self).groups()[k] == old(self).groups()[k],
    {
        let ghost pre = self.client_group@;
        match self.client_group.remove(group.value) {
            Some(mut device_manager) => {
                let removed = device_manager.delete_device_spec(device);
                self.client_group.insert(group.value, device_manager);
                proof {
                    assert(final(self).groups() =~= pre.insert(group.value, device_manager));
                    assert(final(self).groups().dom() =~= pre.dom());
                }
                removed.is_some()
            },
            None => {
                proof {
                    assert(final(self).groups() =~= pre);
                }
                false
            },
        }
    }

    /// Registers or replaces one device's snapshot in one group; the answer
    /// says whether the group exists.
    pub fn upsert_fs(&mut self, group: Uid, device: Uid, file_system: FileSystem) -> (r: bool)
        requires
            old(self).wf(),
        ensures
            final(self).wf(),
            r == old(self).groups().contains_key(group.value),
            !r ==> final(self).groups() == old(self).groups(),
            r ==> final(self).groups().dom() == old(self).groups().dom(),
            r ==> final(self).groups()[group.value].snapshots() == old(self).groups()[group.value].snapshots().insert(device.value, file_system),
            r ==> final(self).groups()[group.value].specs() == old(self).groups()[group.value].specs(),
            forall|k: u128|
                k != group.value && #[trigger] old(self).groups().contains_key(k) ==> final(self).groups()[k] == old(self).groups()[k],
    {
        let ghost pre = self.client_group@;
        match self.client_group.remove(group.value) {
            Some(mut device_manager) => {
                device_manager.add_device_fs(device, file_system);
                self.client_group.insert(group.value, device_manager);
                proof {
                    assert(final(self).groups() =~= pre.insert(group.value, device_manager));
                    assert(final(self).groups().dom() =~= pre.dom());
                }
                true
            },
            None => {
                proof {
                    assert(final(self).groups() =~= pre);
                }
                false
            },
        }
    }

    /// One device's snapshot in one group, or which of the two was absent.
    pub fn get_fs(&self, group: Uid, device: Uid) -> (r: Result<&FileSystem, LookupError>)
        requires
            self.wf(),
        ensures
            match r {
                Ok(f) => self.groups().contains_key(group.value) && self.groups()[group.value].snapshots().contains_key(device.value) && *f == self.groups()[group.value].snapshots()[device.value],
                Err(e) => (e is GroupNotFound <==> !self.groups().contains_key(group.value)) && (
                e is DeviceNotFound ==> !self.groups()[group.value].snapshots().contains_key(
                    device.value,
                )),
            },
    {
        match self.client_group.get(group.value) {
            Some(device_manager) => match device_manager.get_device_fs(device) {
                Some(f) => Ok(f),
                None => Err(LookupError::DeviceNotFound),
            },
            None => Err(LookupError::GroupNotFound),
        }
    }

    /// Removes one device's snapshot from one group; the answer says whether
    /// both the group and the snapshot were there.
    pub fn delete_fs(&mut self, group: Uid, device: Uid) -> (r: bool)
        requires
            old(self).wf(),
        ensures
            final(self).wf(),
            r == (old(self).groups().contains_key(group.value) && old(self).groups()[group.value].snapshots().contains_key(device.value)),
            !old(self).groups().contains_key(group.value) ==> final(self).groups() == old(self).groups(),
            old(self).groups().contains_key(group.value) ==> {
                &&& final(self).groups().dom() == old(self).groups().dom()
                &&& final(self).groups()[group.value].snapshots() == old(self).groups()[group.value].snapshots().remove(device.value)
                &&& final(self).groups()[group.value].specs() == old(self).groups()[group.value].specs()
            },
            forall|k: u128|
                k != group.value && #[trigger] old(self).groups().contains_key(k) ==> final(self).groups()[k] == old(self).groups()[k],
    {
        let ghost pre = self.client_group@;
        match self.client_group.remove(group.value) {
            Some(mut device_manager) => {
                let removed = device_manager.delete_device_fs(device);
                self.client_group.insert(group.value, device_manager);
                proof {
                    assert(final(self).groups() =~= pre.insert(group.value, device_manager));
                    assert(final(self).groups().dom() =~= pre.dom());
                }
                removed.is_some()
            },
            None => {
                proof {
                    assert(final(self).groups() =~= pre);
                }
                false
            },
        }
    }

    /// Registers a descriptor under a freshly allocated device id; `None`
    /// when the group does not exist.
    pub fn register_spec(&mut self, group: Uid, device_spec: DeviceSpec) -> (r: Option<Uid>)
        requires
            old(self).wf(),
        ensures
            final(self).wf(),
            r is Some <==> old(self).groups().contains_key(group.value),
            r is None ==> final(self).groups() == old(self).groups(),
            r is Some ==> {
                &&& final(self).groups().dom() == old(self).groups().dom()
                &&& final(self).groups()[group.value].specs() == old(self).groups()[group.value].specs().insert(r->Some_0.value, device_spec)
                &&& final(self).groups()[group.value].snapshots() == old(self).groups()[group.value].snapshots()
            },
    {
        if self.client_group.contains_key(group.value) {
            let id = fresh_uid();
            let _ = self.upsert_spec(group, id, device_spec);
            Some(id)
        } else {
            None
        }
    }

    /// Registers a snapshot under a freshly allocated device id; `None` when
    /// the group does not exist.
    pub fn register_fs(&mut self, group: Uid, file_system: FileSystem) -> (r: Option<Uid>)
        requires
            old(self).wf(),
        ensures
            final(self).wf(),
            r is Some <==> old(self).groups().contains_key(group.value),
            r is None ==> final(self).groups() == old(self).groups(),
            r is Some ==> {
                &&& final(self).groups().dom() == old(self).groups().dom()
                &&& final(self).groups()[group.value].snapshots() == old(self).groups()[group.value].snapshots().insert(r->Some_0.value, file_system)
                &&& final(self).groups()[group.value].specs() == old(self).groups()[group.value].specs()
            },
    {
        if self.client_group.contains_key(group.value) {
            let id = fresh_uid();
            let _ = self.upsert_fs(group, id, file_system);
            Some(id)
        } else {
            None
        }
    }
}

/// One step of the per-device descriptor history within a group.
#[derive(Clone, Debug)]
pub enum SpecOp {
    Upsert(DeviceSpec),
    Delete,
}

/// The effect of one descriptor operation on a group's descriptor map; this
/// is exactly what `upsert_spec` and `delete_spec` ensure for an existing
/// group.
pub open spec fn apply_spec_op(m: Map<u128, DeviceSpec>, d: u128, op: SpecOp) -> Map<
    u128,
    DeviceSpec,
> {
    match op {
        SpecOp::Upsert(s) => m.insert(d, s),
        SpecOp::Delete => m.remove(d),
    }
}

/// The descriptor map after a whole history of operations on one device.
pub open spec fn apply_spec_ops(m: Map<u128, DeviceSpec>, d: u128, ops: Seq<SpecOp>) -> Map<
    u128,
    DeviceSpec,
>
    decreases ops.len(),
{
    if ops.len() == 0 {
        m
    } else {
        apply_spec_op(apply_spec_ops(m, d, ops.drop_last()), d, ops.last())
    }
}

/// Law: after any sequence of upserts and deletes for one device of an
/// existing group, a lookup of that device finds the descriptor of the last
/// upsert when the sequence ends in an upsert, and nothing when it ends in a
/// delete. (`upsert_spec` and `delete_spec` ensure exactly one
/// `apply_spec_op` step on the group's descriptor map, and `get_spec` reads
/// that map.)
pub proof fn lemma_last_write_wins(m: Map<u128, DeviceSpec>, d: u128, ops: Seq<SpecOp>)
    requires
        ops.len() > 0,
    ensures
        apply_spec_ops(m, d, ops).contains_key(d) <==> ops.last() is Upsert,
        ops.last() is Upsert ==> apply_spec_ops(m, d, ops)[d] == ops.last()->Upsert_0,
{
}

/// The descriptor map after a batch of upserts, one per device.
pub open spec fn apply_upserts(m: Map<u128, DeviceSpec>, writes: Seq<(u128, DeviceSpec)>) -> Map<
    u128,
    DeviceSpec,
>
    decreases writes.len(),
{
    if writes.len() == 0 {
        m
    } else {
        apply_upserts(m, writes.drop_last()).insert(writes.last().0, writes.last().1)
    }
}

/// Law: upserts for pairwise-distinct devices of one group are all visible
/// afterwards, whatever their order — none is lost. (Calls serialized by the
/// registry's lock reach the descriptor map in some order; this covers every
/// order.)
pub proof fn lemma_distinct_upserts_all_visible(
    m: Map<u128, DeviceSpec>,
    writes: Seq<(u128, DeviceSpec)>,
)
    requires
        forall|i: int, j: int| 0 <= i < j < writes.len() ==> writes[i].0 != writes[j].0,
    ensures
        forall|i: int|
            0 <= i < writes.len() ==> #[trigger] apply_upserts(m, writes).contains_key(
                writes[i].0,
            ) && apply_upserts(m, writes)[writes[i].0] == writes[i].1,
    decreases writes.len(),
{
    if writes.len() > 0 {
        lemma_distinct_upserts_all_visible(m, writes.drop_last());
        assert forall|i: int|
            0 <= i < writes.len() implies #[trigger] apply_upserts(m, writes).contains_key(
            writes[i].0,
        ) && apply_upserts(m, writes)[writes[i].0] == writes[i].1 by {
            if i < writes.len() - 1 {
                assert(writes.drop_last()[i] == writes[i]);
                assert(writes[i].0 != writes.last().0);
                assert(apply_upserts(m, writes.drop_last()).contains_key(writes[i].0));
            }
        }
    }
}

/// Law: a group just created is found by a lookup of its id and holds no
/// descriptors and no snapshots. (`create_group` ensures the transition;
/// `get_device_manager` reads the group map.)
pub proof fn lemma_create_then_get(pre: ClientGroup, post: ClientGroup, id: Uid)
    requires
        create_group_transition(pre, post, id),
    ensures
        post.groups().contains_key(id.value),
        post.groups()[id.value].specs() == Map::<u128, DeviceSpec>::empty(),
        post.groups()[id.value].snapshots() == Map::<u128, FileSystem>::empty(),
{
}

/// Law: deleting a group answers whether it was there, and afterwards a
/// lookup of its id finds nothing. (`delete_device_manager` ensures the
/// transition; `get_device_manager` reads the group map.)
pub proof fn lemma_delete_then_get(pre: ClientGroup, post: ClientGroup, id: Uid, r: bool)
    requires
        delete_group_transition(pre, post, id, r),
    ensures
        r == pre.groups().contains_key(id.value),
        !post.groups().contains_key(id.value),
{
}

} // verus!
