//! Messages of the control plane.

use vstd::prelude::*;
use vstd::string::*;

verus! {

/// What a memory region holds.
#[derive(Debug, Clone, Copy, PartialEq, Eq, Structural)]
pub enum RegionType {
    HashTable,
    LargeObject,
    FreeList,
}

/// A remotely accessible memory region.
#[derive(Debug, Clone, Copy, PartialEq, Eq, Structural)]
pub struct RegionMetadata {
    pub vaddr: u64,
    pub rkey: u32,
    pub size: u64,
    pub region_type: RegionType,
    pub generation: u64,
}

/// What a client has to know of a server.
#[derive(Debug)]
pub struct ServerMetadata {
    pub generation: u64,
    pub bucket_count: u64,
    pub regions: Vec<RegionMetadata>,
}

/// Server metadata as a value.
#[verifier::ext_equal]
pub struct MetadataView {
    pub generation: u64,
    pub bucket_count: u64,
    pub regions: Seq<RegionMetadata>,
}

impl View for ServerMetadata {
    type V = MetadataView;

    open spec fn view(&self) -> MetadataView {
        MetadataView {
            generation: self.generation,
            bucket_count: self.bucket_count,
            regions: self.regions@,
        }
    }
}

/// Metadata that says nothing: no buckets, no regions, generation zero.
pub open spec fn no_metadata() -> MetadataView {
    MetadataView { generation: 0, bucket_count: 0, regions: Seq::empty() }
}

impl Default for ServerMetadata {
    fn default() -> (r: Self)
        ensures
            r@ == no_metadata(),
    {
        let r = ServerMetadata { generation: 0, bucket_count: 0, regions: Vec::new() };
        assert(r@ =~= no_metadata());
        r
    }
}

/// The first region of a type.
pub open spec fn region_of(regions: Seq<RegionMetadata>, t: RegionType) -> Option<RegionMetadata>
    decreases regions.len(),
{
    if regions.len() == 0 {
        None
    } else if regions[0].region_type == t {
        Some(regions[0])
    } else {
        region_of(regions.skip(1), t)
    }
}

impl ServerMetadata {
    /// The first region of a type, if present.
    pub fn region(&self, t: RegionType) -> (r: Option<&RegionMetadata>)
        ensures
            match r {
                Some(m) => region_of(self@.regions, t) == Some(*m),
                None => region_of(self@.regions, t) is None,
            },
    {
        let mut i: usize = 0;
        assert(self.regions@.skip(0) =~= self.regions@);
        while i < self.regions.len()
            invariant
                i <= self.regions@.len(),
                region_of(self.regions@, t) == region_of(self.regions@.skip(i as int), t),
            decreases self.regions@.len() - i,
        {
            assert(self.regions@.skip(i as int)[0] == self.regions@[i as int]);
            assert(self.regions@.skip(i as int).skip(1) =~= self.regions@.skip(i + 1));
            if self.regions[i].region_type == t {
                return Some(&self.regions[i]);
            }
            i = i + 1;
        }
        None
    }
}

/// A client's sign of life.
#[derive(Debug, Clone, Copy, PartialEq, Eq, Structural)]
pub struct HeartbeatRequest {
    pub client_id: u64,
    pub active_ts: u32,
}

/// The server's answer to a heartbeat.
#[derive(Debug, Clone, Copy, PartialEq, Eq, Structural)]
pub struct HeartbeatResponse {
    pub generation: u64,
    pub reconnect: bool,
    pub server_version: u32,
}

/// The server's protocol version.
#[derive(Debug)]
pub struct GetVersionResponse {
    pub service_version: u32,
    pub service_version_str: String,
    pub min_compatible_version: u32,
}

/// The region that is found has the type that was asked for, and none before it
/// has. When none is found, none has the type.
pub proof fn law_first_region(regions: Seq<RegionMetadata>, t: RegionType)
    ensures
        match region_of(regions, t) {
            Some(m) => m.region_type == t && exists|i: int|
                0 <= i < regions.len() && #[trigger] regions[i] == m && forall|j: int|
                    0 <= j < i ==> (#[trigger] regions[j]).region_type != t,
            None => forall|j: int|
                0 <= j < regions.len() ==> (#[trigger] regions[j]).region_type != t,
        },
    decreases regions.len(),
{
    if regions.len() > 0 {
        let rest = regions.skip(1);
        law_first_region(rest, t);
        if regions[0].region_type != t {
            assert forall|j: int| 0 < j < regions.len() implies #[trigger] regions[j] == rest[j
                - 1] by {}
            if let Some(m) = region_of(rest, t) {
                let i = choose|i: int|
                    0 <= i < rest.len() && #[trigger] rest[i] == m && forall|j: int|
                        0 <= j < i ==> (#[trigger] rest[j]).region_type != t;
                assert(regions[i + 1] == m);
            }
        }
    }
}

/// Metadata that says nothing has no buckets and no region of any type.
pub proof fn law_no_metadata(t: RegionType)
    ensures
        no_metadata().generation == 0,
        no_metadata().bucket_count == 0,
        region_of(no_metadata().regions, t) is None,
{
}

} // verus!
