//! One group's device state: a map from device id to registered descriptor
//! and a map from device id to shared directory snapshot. The two maps are
//! independent: a device may appear in either without the other.

use vstd::prelude::*;

use crate::device_spec::DeviceSpec;
use crate::file_sys::FileSystem;
use crate::id_map::IdMap;
use crate::ids::Uid;

verus! {

pub struct DeviceManager {
    id_spec_map: IdMap<DeviceSpec>,
    id_fs_map: IdMap<FileSystem>,
}

impl DeviceManager {
    pub closed spec fn wf(self) -> bool {
        self.id_spec_map.wf() && self.id_fs_map.wf()
    }

    /// The registered descriptors, by device id.
    pub closed spec fn specs(self) -> Map<u128, DeviceSpec> {
        self.id_spec_map@
    }

    /// The registered snapshots, by device id.
    pub closed spec fn snapshots(self) -> Map<u128, FileSystem> {
        self.id_fs_map@
    }

    pub fn new() -> (r: DeviceManager)
        ensures
            r.wf(),
            r.specs() == Map::<u128, DeviceSpec>::empty(),
            r.snapshots() == Map::<u128, FileSystem>::empty(),
    {
        DeviceManager { id_spec_map: IdMap::new(), id_fs_map: IdMap::new() }
    }

    /// Registers or replaces the descriptor for a device.
    pub fn add_device_spec(&mut self, id: Uid, device_spec: DeviceSpec)
        requires
            old(self).wf(),
        ensures
            final(self).wf(),
            final(self).specs() == old(self).specs().insert(id.value, device_spec),
            final(self).snapshots() == old(self).snapshots(),
    {
        self.id_spec_map.insert(id.value, device_spec);
    }

    /// Registers or replaces the snapshot for a device.
    pub fn add_device_fs(&mut self, id: Uid, file_system: FileSystem)
        requires
            old(self).wf(),
        ensures
            final(self).wf(),
            final(self).snapshots() == old(self).snapshots().insert(id.value, file_system),
            final(self).specs() == old(self).specs(),
    {
        self.id_fs_map.insert(id.value, file_system);
    }

    pub fn get_device_spec(&self, id: Uid) -> (r: Option<&DeviceSpec>)
        requires
            self.wf(),
        ensures
            match r {
                Some(s) => self.specs().contains_key(id.value) && *s == self.specs()[id.value],
                None => !self.specs().contains_key(id.value),
            },
    {
        self.id_spec_map.get(id.value)
    }

    pub fn get_device_fs(&self, id: Uid) -> (r: Option<&FileSystem>)
        requires
            self.wf(),
        ensures
            match r {
                Some(f) => self.snapshots().contains_key(id.value) && *f == self.snapshots()[id.value],
                None => !self.snapshots().contains_key(id.value),
            },
    {
        self.id_fs_map.get(id.value)
    }

    /// The devices holding a descriptor, each once.
    pub fn spec_ids(&self) -> (r: Vec<u128>)
        requires
            self.wf(),
        ensures
            forall|k: u128| #[trigger] r@.contains(k) <==> self.specs().contains_key(k),
            forall|i: int, j: int| 0 <= i < j < r@.len() ==> r@[i] != r@[j],
    {
        self.id_spec_map.keys()
    }

    /// The devices holding a snapshot, each once.
    pub fn fs_ids(&self) -> (r: Vec<u128>)
        requires
            self.wf(),
        ensures
            forall|k: u128| #[trigger] r@.contains(k) <==> self.snapshots().contains_key(k),
            forall|i: int, j: int| 0 <= i < j < r@.len() ==> r@[i] != r@[j],
    {
        self.id_fs_map.keys()
    }

    /// Removes a device's descriptor, returning it when it was present.
    pub fn delete_device_spec(&mut self, id: Uid) -> (r: Option<DeviceSpec>)
        requires
            old(self).wf(),
        ensures
            final(self).wf(),
            final(self).specs() == old(self).specs().remove(id.value),
            final(self).snapshots() == old(self).snapshots(),
            r == if old(self).specs().contains_key(id.value) {
                Some(old(self).specs()[id.value])
            } else {
                None::<DeviceSpec>
            },
    {
        self.id_spec_map.remove(id.value)
    }

    /// Removes a device's snapshot, returning it when it was present.
    pub fn delete_device_fs(&mut self, id: Uid) -> (r: Option<FileSystem>)
        requires
            old(self).wf(),
        ensures
            final(self).wf(),
            final(self).snapshots() == old(self).snapshots().remove(id.value),
            final(self).specs() == old(self).specs(),
            r == if old(self).snapshots().contains_key(id.value) {
                Some(old(self).snapshots()[id.value])
            } else {
                None::<FileSystem>
            },
    {
        self.id_fs_map.remove(id.value)
    }
}

} // verus!
