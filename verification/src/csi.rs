//! State of the Aether CSI driver: volumes, their names, and where they are staged,
//! published and attached.
use vstd::prelude::*;

use crate::ids::new_uuid;
use crate::strmap::StrMap;
use crate::text::{chars_of, concat2, concat3, extend_str, push_signed_decimal, signed_decimal, string_of};

verus! {

/// Volume size used when a request asks for none: 10 GiB.
pub const DEFAULT_CAPACITY_BYTES: i64 = 10737418240;

/// Capacity the driver advertises: 1 TB.
pub const AVAILABLE_CAPACITY_BYTES: i64 = 1000000000000;

/// Volumes a node may hold.
pub const MAX_VOLUMES_PER_NODE: i64 = 100;

/// The size a volume request asks for.
#[derive(Debug, Clone, Copy, PartialEq, Eq, Structural)]
pub struct CapacityRange {
    /// Size the volume must have at least.
    pub required_bytes: i64,
    /// Size the volume must not exceed.
    pub limit_bytes: i64,
}

/// Why a CSI request was refused, with its gRPC status class.
#[derive(Debug)]
pub enum CsiError {
    /// A required field is empty.
    InvalidArgument(String),
    /// The volume is not known.
    NotFound(String),
    /// A volume with the name exists and is smaller than requested.
    AlreadyExists(String),
}

/// A volume as the controller reports it.
#[derive(Debug)]
pub struct VolumeInfo {
    pub volume_id: String,
    pub capacity_bytes: i64,
}

/// Represents the in-memory state of a provisioned CSI volume.
#[derive(Debug)]
pub struct VolumeState {
    pub volume_id: String,
    pub name: String,
    pub capacity_bytes: i64,
    pub published_to_nodes: StrMap<()>,
    pub staged: bool,
    pub published: bool,
}

/// A volume, with text taken as sequences and its nodes as a set.
pub struct VolumeView {
    pub volume_id: Seq<char>,
    pub name: Seq<char>,
    pub capacity_bytes: i64,
    pub published_to_nodes: Set<Seq<char>>,
    pub staged: bool,
    pub published: bool,
}

impl View for VolumeState {
    type V = VolumeView;

    open spec fn view(&self) -> VolumeView {
        VolumeView {
            volume_id: self.volume_id@,
            name: self.name@,
            capacity_bytes: self.capacity_bytes,
            published_to_nodes: self.published_to_nodes@.dom(),
            staged: self.staged,
            published: self.published,
        }
    }
}

/// The error of a refused request: its class and message.
pub open spec fn invalid_argument(r: Result<(), CsiError>, msg: Seq<char>) -> bool {
    r matches Err(CsiError::InvalidArgument(m)) && m@ == msg
}

/// The size a new volume gets: the required size, else the limit, else 10 GiB.
pub open spec fn spec_capacity(range: Option<CapacityRange>) -> i64 {
    match range {
        Some(r) => if r.required_bytes > 0 {
            r.required_bytes
        } else if r.limit_bytes > 0 {
            r.limit_bytes
        } else {
            DEFAULT_CAPACITY_BYTES
        },
        None => DEFAULT_CAPACITY_BYTES,
    }
}

/// The size a request for an existing name must not exceed.
pub open spec fn requested_size(range: Option<CapacityRange>) -> i64 {
    match range {
        Some(r) => r.required_bytes,
        None => 0,
    }
}

/// The message for a name whose volume is smaller than requested.
pub open spec fn smaller_message(name: Seq<char>, have: i64, want: i64) -> Seq<char> {
    "Volume "@ + name + " exists but with smaller size "@ + signed_decimal(have as int)
        + " than requested "@ + signed_decimal(want as int)
}

/// The message for an unknown volume.
pub open spec fn volume_not_found(volume_id: Seq<char>) -> Seq<char> {
    "Volume "@ + volume_id + " not found"@
}

/// The device a published volume is reached at.
pub open spec fn spec_device_path(volume_id: Seq<char>) -> Seq<char> {
    "/dev/zvol/tank/"@ + volume_id
}

/// A fresh volume.
pub open spec fn new_volume(volume_id: Seq<char>, name: Seq<char>, capacity: i64) -> VolumeView {
    VolumeView {
        volume_id,
        name,
        capacity_bytes: capacity,
        published_to_nodes: Set::empty(),
        staged: false,
        published: false,
    }
}

/// A volume with its flags and nodes changed.
pub open spec fn with_state(
    v: VolumeView,
    nodes: Set<Seq<char>>,
    staged: bool,
    published: bool,
) -> VolumeView {
    VolumeView {
        volume_id: v.volume_id,
        name: v.name,
        capacity_bytes: v.capacity_bytes,
        published_to_nodes: nodes,
        staged,
        published,
    }
}

/// The volumes and names known to the CSI driver.
pub struct CsiState {
    /// Node this driver runs on.
    pub node_id: String,
    /// Volume ID to volume.
    pub volumes: StrMap<VolumeState>,
    /// Volume name to volume ID.
    pub name_to_id: StrMap<String>,
}

impl CsiState {
    /// The volumes, by ID.
    pub open spec fn volume_map(&self) -> Map<Seq<char>, VolumeView> {
        self.volumes@.map_values(|v: VolumeState| v@)
    }

    /// The volume ID of each name.
    pub open spec fn names(&self) -> Map<Seq<char>, Seq<char>> {
        self.name_to_id@.map_values(|s: String| s@)
    }

    /// The tables are well formed.
    pub open spec fn wf(&self) -> bool {
        &&& self.volumes.wf()
        &&& self.name_to_id.wf()
        &&& forall|k: Seq<char>| #[trigger]
            self.volumes@.contains_key(k) ==> self.volumes@[k].published_to_nodes.wf()
    }

    /// Creates a driver state with no volumes.
    pub fn new(node_id: String) -> (s: Self)
        ensures
            s.wf(),
            s.node_id == node_id,
            s.volume_map() == Map::<Seq<char>, VolumeView>::empty(),
            s.names() == Map::<Seq<char>, Seq<char>>::empty(),
    {
        let s = CsiState { node_id, volumes: StrMap::new(), name_to_id: StrMap::new() };
        proof {
            assert(s.volume_map() =~= Map::<Seq<char>, VolumeView>::empty());
            assert(s.names() =~= Map::<Seq<char>, Seq<char>>::empty());
        }
        s
    }

    /// Takes a volume out, to be changed and put back.
    fn take(&mut self, volume_id: &str) -> (r: Option<VolumeState>)
        requires
            old(self).wf(),
        ensures
            final(self).wf(),
            final(self).node_id == old(self).node_id,
            final(self).names() == old(self).names(),
            final(self).volume_map() == old(self).volume_map().remove(volume_id@),
            match r {
                Some(v) => old(self).volume_map().contains_key(volume_id@) && v@ == old(self).volume_map()[volume_id@] && v.published_to_nodes.wf(),
                None => !old(self).volume_map().contains_key(volume_id@),
            },
    {
        let r = self.volumes.remove(volume_id);
        proof {
            assert(self.volume_map() =~= old(self).volume_map().remove(volume_id@));
        }
        r
    }

    /// Puts a volume (back) under an ID.
    fn put(&mut self, volume_id: &str, v: VolumeState)
        requires
            old(self).wf(),
            v.published_to_nodes.wf(),
        ensures
            final(self).wf(),
            final(self).node_id == old(self).node_id,
            final(self).names() == old(self).names(),
            final(self).volume_map() == old(self).volume_map().insert(volume_id@, v@),
    {
        self.volumes.insert(volume_id.to_owned(), v);
        proof {
            assert(self.volume_map() =~= old(self).volume_map().insert(volume_id@, v@));
        }
    }

    /// Creates a volume named `name`, under `volume_id` when it is new. A name that
    /// already has a volume gets that volume back, unless the volume is smaller than the
    /// requested size.
    pub fn create_volume_with_id(
        &mut self,
        name: &str,
        capacity_range: Option<CapacityRange>,
        volume_id: String,
    ) -> (r: Result<VolumeInfo, CsiError>)
        requires
            old(self).wf(),
        ensures
            final(self).wf(),
            final(self).node_id == old(self).node_id,
            name@.len() == 0 ==> (r matches Err(CsiError::InvalidArgument(m)) && m@
                == "Volume name is required"@ && final(self).volume_map() == old(self).volume_map() && final(self).names() == old(self).names()),
            name@.len() > 0 && old(self).names().contains_key(name@) && old(self).volume_map().contains_key(old(self).names()[name@]) ==> ({
                let v = old(self).volume_map()[old(self).names()[name@]];
                let want = requested_size(capacity_range);
                &&& final(self).volume_map() == old(self).volume_map()
                &&& final(self).names() == old(self).names()
                &&& if want > 0 && v.capacity_bytes < want {
                    r matches Err(CsiError::AlreadyExists(m)) && m@ == smaller_message(
                        name@,
                        v.capacity_bytes,
                        want,
                    )
                } else {
                    r matches Ok(info) && info.volume_id@ == v.volume_id && info.capacity_bytes
                        == v.capacity_bytes
                }
            }),
            name@.len() > 0 && !(old(self).names().contains_key(name@) && old(self).volume_map().contains_key(old(self).names()[name@])) ==> ({
                let cap = spec_capacity(capacity_range);
                &&& r matches Ok(info) && info.volume_id@ == volume_id@ && info.capacity_bytes
                    == cap
                &&& final(self).volume_map() == old(self).volume_map().insert(
                    volume_id@,
                    new_volume(volume_id@, name@, cap),
                )
                &&& final(self).names() == old(self).names().insert(name@, volume_id@)
            }),
    {
        if name.is_empty() {
            return Err(CsiError::InvalidArgument(String::from_str("Volume name is required")));
        }
        match self.name_to_id.get(name) {
            Some(existing_id) => {
                match self.volumes.get(existing_id.as_str()) {
                    Some(vol) => {
                        let want: i64 = match capacity_range {
                            Some(c) => c.required_bytes,
                            None => 0,
                        };
                        if want > 0 && vol.capacity_bytes < want {
                            let mut m = chars_of("Volume ");
                            extend_str(&mut m, name);
                            extend_str(&mut m, " exists but with smaller size ");
                            push_signed_decimal(&mut m, vol.capacity_bytes);
                            extend_str(&mut m, " than requested ");
                            push_signed_decimal(&mut m, want);
                            return Err(CsiError::AlreadyExists(string_of(&m)));
                        }
                        return Ok(
                            VolumeInfo {
                                volume_id: vol.volume_id.clone(),
                                capacity_bytes: vol.capacity_bytes,
                            },
                        );
                    },
                    None => {},
                }
            },
            None => {},
        }
        let capacity_bytes: i64 = match capacity_range {
            Some(range) => if range.required_bytes > 0 {
                range.required_bytes
            } else if range.limit_bytes > 0 {
                range.limit_bytes
            } else {
                DEFAULT_CAPACITY_BYTES
            },
            None => DEFAULT_CAPACITY_BYTES,
        };
        let vol = VolumeState {
            volume_id: volume_id.clone(),
            name: name.to_owned(),
            capacity_bytes,
            published_to_nodes: StrMap::new(),
            staged: false,
            published: false,
        };
        proof {
            assert(vol.published_to_nodes@.dom() =~= Set::<Seq<char>>::empty());
        }
        self.put(volume_id.as_str(), vol);
        self.name_to_id.insert(name.to_owned(), volume_id.clone());
        proof {
            assert(self.names() =~= old(self).names().insert(name@, volume_id@));
        }
        Ok(VolumeInfo { volume_id, capacity_bytes })
    }

    /// Creates a volume named `name`; a new volume gets the ID `vol-<uuid>`.
    pub fn create_volume(&mut self, name: &str, capacity_range: Option<CapacityRange>) -> (r:
        Result<VolumeInfo, CsiError>)
        requires
            old(self).wf(),
        ensures
            final(self).wf(),
            final(self).node_id == old(self).node_id,
            name@.len() == 0 ==> (r matches Err(CsiError::InvalidArgument(m)) && m@
                == "Volume name is required"@ && final(self).volume_map() == old(self).volume_map()
                && final(self).names() == old(self).names()),
            name@.len() > 0 && !(old(self).names().contains_key(name@) && old(self).volume_map().contains_key(old(self).names()[name@])) ==> ({
                let cap = spec_capacity(capacity_range);
                r matches Ok(info) && info.capacity_bytes == cap && info.volume_id@.len() == 40
                    && info.volume_id@.subrange(0, 4) == "vol-"@ && final(self).volume_map()
                    == old(self).volume_map().insert(
                    info.volume_id@,
                    new_volume(info.volume_id@, name@, cap),
                ) && final(self).names() == old(self).names().insert(name@, info.volume_id@)
            }),
            name@.len() > 0 && old(self).names().contains_key(name@) && old(self).volume_map().contains_key(old(self).names()[name@]) ==> ({
                let v = old(self).volume_map()[old(self).names()[name@]];
                let want = requested_size(capacity_range);
                &&& final(self).volume_map() == old(self).volume_map()
                &&& final(self).names() == old(self).names()
                &&& if want > 0 && v.capacity_bytes < want {
                    r matches Err(CsiError::AlreadyExists(m)) && m@ == smaller_message(
                        name@,
                        v.capacity_bytes,
                        want,
                    )
                } else {
                    r matches Ok(info) && info.volume_id@ == v.volume_id && info.capacity_bytes
                        == v.capacity_bytes
                }
            }),
    {
        if name.is_empty() {
            return Err(CsiError::InvalidArgument(String::from_str("Volume name is required")));
        }
        let id = concat2("vol-", new_uuid().as_str());
        proof {
            reveal_strlit("vol-");
            assert(id@.subrange(0, 4) =~= "vol-"@);
        }
        self.create_volume_with_id(name, capacity_range, id)
    }

    /// Deletes a volume and its name; unknown IDs are ignored.
    pub fn delete_volume(&mut self, volume_id: &str) -> (r: Result<(), CsiError>)
        requires
            old(self).wf(),
        ensures
            final(self).wf(),
            final(self).node_id == old(self).node_id,
            volume_id@.len() == 0 ==> invalid_argument(r, "Volume ID is required"@) && final(self).volume_map() == old(self).volume_map() && final(self).names() == old(self).names(),
            volume_id@.len() > 0 ==> r is Ok && final(self).volume_map() == old(self).volume_map().remove(volume_id@) && final(self).names() == (if old(self).volume_map().contains_key(volume_id@) {
                old(self).names().remove(old(self).volume_map()[volume_id@].name)
            } else {
                old(self).names()
            }),
    {
        if volume_id.is_empty() {
            return Err(CsiError::InvalidArgument(String::from_str("Volume ID is required")));
        }
        match self.take(volume_id) {
            Some(vol) => {
                self.name_to_id.remove(vol.name.as_str());
                proof {
                    assert(self.names() =~= old(self).names().remove(vol.name@));
                }
            },
            None => {},
        }
        Ok(())
    }

    /// Attaches a volume to a node; gives the device path the node reaches it at.
    pub fn controller_publish_volume(&mut self, volume_id: &str, node_id: &str) -> (r: Result<
        String,
        CsiError,
    >)
        requires
            old(self).wf(),
        ensures
            final(self).wf(),
            final(self).node_id == old(self).node_id,
            final(self).names() == old(self).names(),
            volume_id@.len() == 0 ==> (r matches Err(CsiError::InvalidArgument(m)) && m@
                == "Volume ID is required"@),
            volume_id@.len() > 0 && node_id@.len() == 0 ==> (r matches Err(
                CsiError::InvalidArgument(m),
            ) && m@ == "Node ID is required"@),
            volume_id@.len() > 0 && node_id@.len() > 0 && !old(self).volume_map().contains_key(
                volume_id@,
            ) ==> (r matches Err(CsiError::NotFound(m)) && m@ == volume_not_found(volume_id@)),
            volume_id@.len() > 0 && node_id@.len() > 0 && old(self).volume_map().contains_key(
                volume_id@,
            ) ==> ({
                let v = old(self).volume_map()[volume_id@];
                r matches Ok(p) && p@ == spec_device_path(volume_id@) && final(self).volume_map()
                    == old(self).volume_map().insert(
                    volume_id@,
                    with_state(v, v.published_to_nodes.insert(node_id@), v.staged, v.published),
                )
            }),
            r is Err ==> final(self).volume_map() == old(self).volume_map(),
    {
        if volume_id.is_empty() {
            return Err(CsiError::InvalidArgument(String::from_str("Volume ID is required")));
        }
        if node_id.is_empty() {
            return Err(CsiError::InvalidArgument(String::from_str("Node ID is required")));
        }
        match self.take(volume_id) {
            Some(mut vol) => {
                let ghost v0 = vol@;
                vol.published_to_nodes.insert(node_id.to_owned(), ());
                proof {
                    assert(vol@ =~= with_state(
                        v0,
                        v0.published_to_nodes.insert(node_id@),
                        v0.staged,
                        v0.published,
                    ));
                }
                self.put(volume_id, vol);
                proof {
                    assert(self.volume_map() =~= old(self).volume_map().insert(
                        volume_id@,
                        with_state(v0, v0.published_to_nodes.insert(node_id@), v0.staged, v0.published),
                    ));
                }
                Ok(concat2("/dev/zvol/tank/", volume_id))
            },
            None => Err(CsiError::NotFound(concat3("Volume ", volume_id, " not found"))),
        }
    }

    /// Detaches a volume from a node; unknown volumes are ignored.
    pub fn controller_unpublish_volume(&mut self, volume_id: &str, node_id: &str) -> (r: Result<
        (),
        CsiError,
    >)
        requires
            old(self).wf(),
        ensures
            final(self).wf(),
            final(self).node_id == old(self).node_id,
            final(self).names() == old(self).names(),
            volume_id@.len() == 0 ==> invalid_argument(r, "Volume ID is required"@) && final(self).volume_map() == old(self).volume_map(),
            volume_id@.len() > 0 ==> r is Ok && final(self).volume_map() == (if old(self).volume_map().contains_key(volume_id@) {
                let v = old(self).volume_map()[volume_id@];
                old(self).volume_map().insert(
                    volume_id@,
                    with_state(v, v.published_to_nodes.remove(node_id@), v.staged, v.published),
                )
            } else {
                old(self).volume_map()
            }),
    {
        if volume_id.is_empty() {
            return Err(CsiError::InvalidArgument(String::from_str("Volume ID is required")));
        }
        match self.take(volume_id) {
            Some(mut vol) => {
                let ghost v0 = vol@;
                vol.published_to_nodes.remove(node_id);
                proof {
                    assert(vol@ =~= with_state(
                        v0,
                        v0.published_to_nodes.remove(node_id@),
                        v0.staged,
                        v0.published,
                    ));
                }
                self.put(volume_id, vol);
                proof {
                    assert(self.volume_map() =~= old(self).volume_map().insert(
                        volume_id@,
                        with_state(v0, v0.published_to_nodes.remove(node_id@), v0.staged, v0.published),
                    ));
                }
            },
            None => {
                proof {
                    assert(self.volume_map() =~= old(self).volume_map());
                }
            },
        }
        Ok(())
    }

    /// Checks that a volume exists, so its requested capabilities can be confirmed.
    pub fn validate_volume_capabilities(&self, volume_id: &str) -> (r: Result<(), CsiError>)
        requires
            self.wf(),
        ensures
            volume_id@.len() == 0 ==> invalid_argument(r, "Volume ID is required"@),
            volume_id@.len() > 0 && !self.volume_map().contains_key(volume_id@) ==> (r matches Err(
                CsiError::NotFound(m),
            ) && m@ == volume_not_found(volume_id@)),
            volume_id@.len() > 0 && self.volume_map().contains_key(volume_id@) ==> r is Ok,
    {
        if volume_id.is_empty() {
            return Err(CsiError::InvalidArgument(String::from_str("Volume ID is required")));
        }
        if !self.volumes.contains_key(volume_id) {
            return Err(CsiError::NotFound(concat3("Volume ", volume_id, " not found")));
        }
        Ok(())
    }

    /// Lists every volume with its size.
    pub fn list_volumes(&self) -> (v: Vec<VolumeInfo>)
        requires
            self.wf(),
        ensures
            v@.len() == self.volume_map().dom().len(),
            forall|i: int| 0 <= i < v@.len() ==> #[trigger] lists_known(v@[i], self.volume_map()),
            forall|k: Seq<char>| #[trigger]
                self.volume_map().contains_key(k) ==> exists|i: int|
                    0 <= i < v@.len() && describes(v@[i], self.volume_map()[k]),
    {
        let n = self.volumes.len();
        let ghost es = self.volumes.entries();
        let mut out: Vec<VolumeInfo> = Vec::new();
        let mut i: usize = 0;
        while i < n
            invariant
                i <= n,
                n == es.len(),
                es == self.volumes.entries(),
                self.wf(),
                out@.len() == i,
                forall|j: int| 0 <= j < i ==> describes(#[trigger] out@[j], es[j].1@),
            decreases n - i,
        {
            let vol = self.volumes.value_at(i);
            out.push(VolumeInfo { volume_id: vol.volume_id.clone(), capacity_bytes: vol.capacity_bytes });
            i = i + 1;
        }
        proof {
            crate::strmap::lemma_entries_len(es);
            assert(self.volume_map().dom() =~= self.volumes@.dom());
            assert forall|j: int| 0 <= j < out@.len() implies #[trigger] lists_known(
                out@[j],
                self.volume_map(),
            ) by {
                crate::strmap::lemma_entries_lookup(es, j);
                assert(self.volume_map().contains_key(es[j].0));
            }
            assert forall|k: Seq<char>| #[trigger] self.volume_map().contains_key(k) implies exists|j: int|
                0 <= j < out@.len() && describes(out@[j], self.volume_map()[k]) by {
                let j = crate::strmap::lemma_entries_find(es, k);
                crate::strmap::lemma_entries_lookup(es, j);
                assert(describes(out@[j], self.volume_map()[k]));
            }
        }
        out
    }

    /// Sets the staged flag (`stage`) or the published flag of a volume; tells whether
    /// the volume is known.
    fn set_flag(&mut self, volume_id: &str, stage: bool, value: bool) -> (found: bool)
        requires
            old(self).wf(),
        ensures
            final(self).wf(),
            final(self).node_id == old(self).node_id,
            final(self).names() == old(self).names(),
            found == old(self).volume_map().contains_key(volume_id@),
            final(self).volume_map() == (if found {
                let v = old(self).volume_map()[volume_id@];
                old(self).volume_map().insert(
                    volume_id@,
                    if stage {
                        with_state(v, v.published_to_nodes, value, v.published)
                    } else {
                        with_state(v, v.published_to_nodes, v.staged, value)
                    },
                )
            } else {
                old(self).volume_map()
            }),
    {
        match self.take(volume_id) {
            Some(mut vol) => {
                let ghost v0 = vol@;
                if stage {
                    vol.staged = value;
                } else {
                    vol.published = value;
                }
                self.put(volume_id, vol);
                proof {
                    let v1 = if stage {
                        with_state(v0, v0.published_to_nodes, value, v0.published)
                    } else {
                        with_state(v0, v0.published_to_nodes, v0.staged, value)
                    };
                    assert(vol@ =~= v1);
                    assert(self.volume_map() =~= old(self).volume_map().insert(volume_id@, v1));
                }
                true
            },
            None => {
                proof {
                    assert(self.volume_map() =~= old(self).volume_map());
                }
                false
            },
        }
    }

    /// Marks a volume staged at a path. The node then creates the path: a file for a
    /// block volume, a directory otherwise.
    pub fn node_stage_volume(&mut self, volume_id: &str, staging_target_path: &str) -> (r: Result<
        (),
        CsiError,
    >)
        requires
            old(self).wf(),
        ensures
            final(self).wf(),
            final(self).node_id == old(self).node_id,
            final(self).names() == old(self).names(),
            volume_id@.len() == 0 ==> invalid_argument(r, "Volume ID is required"@),
            volume_id@.len() > 0 && staging_target_path@.len() == 0 ==> invalid_argument(
                r,
                "Staging target path is required"@,
            ),
            volume_id@.len() > 0 && staging_target_path@.len() > 0 && !old(self).volume_map().contains_key(volume_id@) ==> (r matches Err(CsiError::NotFound(m))
                && m@ == volume_not_found(volume_id@)),
            volume_id@.len() > 0 && staging_target_path@.len() > 0 && old(self).volume_map().contains_key(volume_id@) ==> r is Ok && final(self).volume_map() == ({
                let v = old(self).volume_map()[volume_id@];
                old(self).volume_map().insert(
                    volume_id@,
                    with_state(v, v.published_to_nodes, true, v.published),
                )
            }),
            r is Err ==> final(self).volume_map() == old(self).volume_map(),
    {
        if volume_id.is_empty() {
            return Err(CsiError::InvalidArgument(String::from_str("Volume ID is required")));
        }
        if staging_target_path.is_empty() {
            return Err(
                CsiError::InvalidArgument(String::from_str("Staging target path is required")),
            );
        }
        if self.set_flag(volume_id, true, true) {
            Ok(())
        } else {
            Err(CsiError::NotFound(concat3("Volume ", volume_id, " not found")))
        }
    }

    /// Marks a volume no longer staged; unknown volumes are ignored. The node then removes
    /// the staging path if it exists.
    pub fn node_unstage_volume(&mut self, volume_id: &str, staging_target_path: &str) -> (r:
        Result<(), CsiError>)
        requires
            old(self).wf(),
        ensures
            final(self).wf(),
            final(self).node_id == old(self).node_id,
            final(self).names() == old(self).names(),
            volume_id@.len() == 0 ==> invalid_argument(r, "Volume ID is required"@),
            volume_id@.len() > 0 && staging_target_path@.len() == 0 ==> invalid_argument(
                r,
                "Staging target path is required"@,
            ),
            volume_id@.len() > 0 && staging_target_path@.len() > 0 ==> r is Ok && final(self).volume_map() == (if old(self).volume_map().contains_key(volume_id@) {
                let v = old(self).volume_map()[volume_id@];
                old(self).volume_map().insert(
                    volume_id@,
                    with_state(v, v.published_to_nodes, false, v.published),
                )
            } else {
                old(self).volume_map()
            }),
            r is Err ==> final(self).volume_map() == old(self).volume_map(),
    {
        if volume_id.is_empty() {
            return Err(CsiError::InvalidArgument(String::from_str("Volume ID is required")));
        }
        if staging_target_path.is_empty() {
            return Err(
                CsiError::InvalidArgument(String::from_str("Staging target path is required")),
            );
        }
        self.set_flag(volume_id, true, false);
        Ok(())
    }

    /// Marks a volume published at a path. The node then creates the path: a file for a
    /// block volume, a directory otherwise.
    pub fn node_publish_volume(&mut self, volume_id: &str, target_path: &str) -> (r: Result<
        (),
        CsiError,
    >)
        requires
            old(self).wf(),
        ensures
            final(self).wf(),
            final(self).node_id == old(self).node_id,
            final(self).names() == old(self).names(),
            volume_id@.len() == 0 ==> invalid_argument(r, "Volume ID is required"@),
            volume_id@.len() > 0 && target_path@.len() == 0 ==> invalid_argument(
                r,
                "Target path is required"@,
            ),
            volume_id@.len() > 0 && target_path@.len() > 0 && !old(self).volume_map().contains_key(
                volume_id@,
            ) ==> (r matches Err(CsiError::NotFound(m)) && m@ == volume_not_found(volume_id@)),
            volume_id@.len() > 0 && target_path@.len() > 0 && old(self).volume_map().contains_key(
                volume_id@,
            ) ==> r is Ok && final(self).volume_map() == ({
                let v = old(self).volume_map()[volume_id@];
                old(self).volume_map().insert(
                    volume_id@,
                    with_state(v, v.published_to_nodes, v.staged, true),
                )
            }),
            r is Err ==> final(self).volume_map() == old(self).volume_map(),
    {
        if volume_id.is_empty() {
            return Err(CsiError::InvalidArgument(String::from_str("Volume ID is required")));
        }
        if target_path.is_empty() {
            return Err(CsiError::InvalidArgument(String::from_str("Target path is required")));
        }
        if self.set_flag(volume_id, false, true) {
            Ok(())
        } else {
            Err(CsiError::NotFound(concat3("Volume ", volume_id, " not found")))
        }
    }

    /// Marks a volume no longer published; unknown volumes are ignored. The node then
    /// removes the target path if it exists.
    pub fn node_unpublish_volume(&mut self, volume_id: &str, target_path: &str) -> (r: Result<
        (),
        CsiError,
    >)
        requires
            old(self).wf(),
        ensures
            final(self).wf(),
            final(self).node_id == old(self).node_id,
            final(self).names() == old(self).names(),
            volume_id@.len() == 0 ==> invalid_argument(r, "Volume ID is required"@),
            volume_id@.len() > 0 && target_path@.len() == 0 ==> invalid_argument(
                r,
                "Target path is required"@,
            ),
            volume_id@.len() > 0 && target_path@.len() > 0 ==> r is Ok && final(self).volume_map()
                == (if old(self).volume_map().contains_key(volume_id@) {
                let v = old(self).volume_map()[volume_id@];
                old(self).volume_map().insert(
                    volume_id@,
                    with_state(v, v.published_to_nodes, v.staged, false),
                )
            } else {
                old(self).volume_map()
            }),
            r is Err ==> final(self).volume_map() == old(self).volume_map(),
    {
        if volume_id.is_empty() {
            return Err(CsiError::InvalidArgument(String::from_str("Volume ID is required")));
        }
        if target_path.is_empty() {
            return Err(CsiError::InvalidArgument(String::from_str("Target path is required")));
        }
        self.set_flag(volume_id, false, false);
        Ok(())
    }
}

/// A listed volume describes some volume of the map.
pub open spec fn lists_known(info: VolumeInfo, m: Map<Seq<char>, VolumeView>) -> bool {
    exists|k: Seq<char>| #[trigger] m.contains_key(k) && describes(info, m[k])
}

/// A listed volume describes a volume: same ID and size.
pub open spec fn describes(info: VolumeInfo, v: VolumeView) -> bool {
    info.volume_id@ == v.volume_id && info.capacity_bytes == v.capacity_bytes
}

/// Creating a volume under a new name, then creating the same name again with a size
/// no larger than the first, gives back the first volume.
pub proof fn lemma_create_idempotent(
    vols: Map<Seq<char>, VolumeView>,
    names: Map<Seq<char>, Seq<char>>,
    name: Seq<char>,
    volume_id: Seq<char>,
    first: Option<CapacityRange>,
    second: Option<CapacityRange>,
)
    requires
        requested_size(second) <= spec_capacity(first),
    ensures
        ({
            let v2 = vols.insert(volume_id, new_volume(volume_id, name, spec_capacity(first)));
            let n2 = names.insert(name, volume_id);
            &&& n2.contains_key(name) && v2.contains_key(n2[name])
            &&& v2[n2[name]].volume_id == volume_id
            &&& v2[n2[name]].capacity_bytes == spec_capacity(first)
            &&& !(requested_size(second) > 0 && v2[n2[name]].capacity_bytes < requested_size(
                second,
            ))
        }),
{
}

/// Deleting a volume frees its name: a later creation under that name makes a new
/// volume.
pub proof fn lemma_delete_frees_name(
    vols: Map<Seq<char>, VolumeView>,
    names: Map<Seq<char>, Seq<char>>,
    volume_id: Seq<char>,
)
    requires
        vols.contains_key(volume_id),
    ensures
        !names.remove(vols[volume_id].name).contains_key(vols[volume_id].name),
        !vols.remove(volume_id).contains_key(volume_id),
{
}

/// Unpublishing a volume from a node it was newly published to gives back the volume
/// as it was.
pub proof fn lemma_unpublish_undoes_publish(v: VolumeView, node_id: Seq<char>)
    requires
        !v.published_to_nodes.contains(node_id),
    ensures
        ({
            let p = with_state(v, v.published_to_nodes.insert(node_id), v.staged, v.published);
            with_state(p, p.published_to_nodes.remove(node_id), p.staged, p.published) == v
        }),
{
    let p = with_state(v, v.published_to_nodes.insert(node_id), v.staged, v.published);
    assert(p.published_to_nodes.remove(node_id) =~= v.published_to_nodes);
}

/// Unstaging a volume that staging marked gives back the volume as it was, when it
/// was not staged before; likewise for node publishing.
pub proof fn lemma_unstage_undoes_stage(v: VolumeView)
    ensures
        !v.staged ==> with_state(
            with_state(v, v.published_to_nodes, true, v.published),
            v.published_to_nodes,
            false,
            v.published,
        ) == v,
        !v.published ==> with_state(
            with_state(v, v.published_to_nodes, v.staged, true),
            v.published_to_nodes,
            v.staged,
            false,
        ) == v,
{
}

/// A new volume's size is what the request asks for: the required size whenever one is
/// given (a positive `required_bytes`, whatever the limit), else the limit when one is
/// given, else 10 GiB; it is always positive, and it never exceeds a given limit that
/// is at least the required size.
pub proof fn lemma_new_volume_capacity(range: Option<CapacityRange>)
    ensures
        spec_capacity(range) > 0,
        match range {
            Some(r) => {
                &&& r.required_bytes > 0 ==> spec_capacity(range) == r.required_bytes
                &&& r.required_bytes <= 0 && r.limit_bytes > 0 ==> spec_capacity(range)
                    == r.limit_bytes
                &&& r.required_bytes <= 0 && r.limit_bytes <= 0 ==> spec_capacity(range)
                    == 10737418240
                &&& r.limit_bytes > 0 && r.required_bytes <= r.limit_bytes ==> spec_capacity(range)
                    <= r.limit_bytes
                &&& requested_size(range) <= spec_capacity(range)
            },
            None => spec_capacity(range) == 10737418240,
        },
{
}

} // verus!
