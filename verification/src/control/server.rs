//! Server side of the control plane: what it answers to its clients.

use std::collections::HashMap;

use vstd::prelude::*;
use vstd::string::*;

use crate::control::proto;
use crate::control::proto::{
    GetVersionResponse, HeartbeatRequest, HeartbeatResponse, MetadataView, RegionMetadata,
    RegionType, ServerMetadata,
};

verus! {

/// Protocol version of the service.
pub const SERVICE_VERSION: u32 = 1;

/// Oldest protocol version that the service works with.
pub const MIN_COMPATIBLE_VERSION: u32 = 1;

/// The registered clients: the activity timestamp of each, and when it was last
/// heard of.
pub type Clients = Map<u64, (u32, u64)>;

/// What discovery tells of an engine with so many buckets and so much room for
/// large objects, whose free list header has this address.
pub open spec fn discovered(
    generation: u64,
    bucket_count: u64,
    object_capacity: u64,
    free_list_addr: u64,
) -> MetadataView {
    MetadataView {
        generation,
        bucket_count,
        regions: seq![
            RegionMetadata {
                vaddr: 0,
                rkey: 0,
                size: (bucket_count * 64) as u64,
                region_type: RegionType::HashTable,
                generation,
            },
            RegionMetadata {
                vaddr: 0,
                rkey: 0,
                size: object_capacity,
                region_type: RegionType::LargeObject,
                generation,
            },
            RegionMetadata {
                vaddr: free_list_addr,
                rkey: 0,
                size: 64,
                region_type: RegionType::FreeList,
                generation,
            },
        ],
    }
}

/// The state of the control plane server.
#[derive(Debug)]
pub struct ControlServer {
    generation: u64,
    /// Client registry: client_id to (active_ts, last_heartbeat)
    clients: HashMap<u64, (u32, u64)>,
    /// Whether TLS/mTLS is enabled for this server instance.
    pub use_tls: bool,
}

/// The server as a value.
pub struct ServerView {
    pub generation: u64,
    pub clients: Clients,
    pub use_tls: bool,
}

impl View for ControlServer {
    type V = ServerView;

    closed spec fn view(&self) -> ServerView {
        ServerView {
            generation: self.generation,
            clients: self.clients@,
            use_tls: self.use_tls,
        }
    }
}

impl ControlServer {
    /// A server without clients, in its first generation.
    pub fn new() -> (r: Self)
        ensures
            r@ == (ServerView { generation: 1, clients: Map::empty(), use_tls: false }),
    {
        ControlServer { generation: 1, clients: HashMap::new(), use_tls: false }
    }

    /// Builder: enable TLS for this server instance.
    pub fn with_tls(self) -> (r: Self)
        ensures
            r@ == (ServerView { use_tls: true, ..self@ }),
    {
        ControlServer { generation: self.generation, clients: self.clients, use_tls: true }
    }

    /// The metadata that discovery returns: the hash table (64 bytes per bucket),
    /// the large object region and the free list header (one cache line).
    pub fn discover(&self, bucket_count: u64, object_capacity: u64, free_list_addr: u64) -> (r:
        ServerMetadata)
        requires
            bucket_count * 64 <= u64::MAX,
        ensures
            r@ == discovered(self@.generation, bucket_count, object_capacity, free_list_addr),
    {
        let table = RegionMetadata {
            vaddr: 0,
            rkey: 0,
            size: bucket_count * 64,
            region_type: RegionType::HashTable,
            generation: self.generation,
        };
        let objects = RegionMetadata {
            vaddr: 0,
            rkey: 0,
            size: object_capacity,
            region_type: RegionType::LargeObject,
            generation: self.generation,
        };
        let list = RegionMetadata {
            vaddr: free_list_addr,
            rkey: 0,
            size: 64,
            region_type: RegionType::FreeList,
            generation: self.generation,
        };
        let regions: Vec<RegionMetadata> = vec![table, objects, list];
        let r = ServerMetadata { generation: self.generation, bucket_count, regions };
        assert(r@ =~= discovered(self@.generation, bucket_count, object_capacity, free_list_addr));
        r
    }

    /// Registers a client's heartbeat, which arrived at `now`.
    pub fn heartbeat(&mut self, request: HeartbeatRequest, now: u64) -> (r: HeartbeatResponse)
        ensures
            final(self)@ == (ServerView {
                clients: old(self)@.clients.insert(request.client_id, (request.active_ts, now)),
                ..old(self)@
            }),
            r == (HeartbeatResponse {
                generation: old(self)@.generation,
                reconnect: false,
                server_version: SERVICE_VERSION,
            }),
    {
        broadcast use vstd::std_specs::hash::group_hash_axioms;

        self.clients.insert(request.client_id, (request.active_ts, now));
        HeartbeatResponse {
            generation: self.generation,
            reconnect: false,
            server_version: SERVICE_VERSION,
        }
    }

    /// Forgets a client.
    pub fn deregister(&mut self, client_id: u64)
        ensures
            final(self)@ == (ServerView {
                clients: old(self)@.clients.remove(client_id),
                ..old(self)@
            }),
    {
        broadcast use vstd::std_specs::hash::group_hash_axioms;

        self.clients.remove(&client_id);
        assert(self@.clients =~= old(self)@.clients.remove(client_id));
    }

    /// Accepts freed offsets; how many, in 32 bits.
    pub fn sync_free_list(&self, freed_offsets: &[u64]) -> (n: u32)
        ensures
            n == freed_offsets@.len() % 0x1_0000_0000,
    {
        let count: u64 = freed_offsets.len() as u64;
        (count % 0x1_0000_0000) as u32
    }

    /// The protocol version, for negotiation.
    pub fn get_version(&self) -> (r: GetVersionResponse)
        ensures
            r.service_version == SERVICE_VERSION,
            r.service_version_str@ == "1.0.0"@,
            r.min_compatible_version == MIN_COMPATIBLE_VERSION,
    {
        GetVersionResponse {
            service_version: SERVICE_VERSION,
            service_version_str: "1.0.0".to_owned(),
            min_compatible_version: MIN_COMPATIBLE_VERSION,
        }
    }

    /// The activity timestamps of the clients, for GC.
    pub fn min_active_ts(&self) -> (ts: u32)
        ensures
            least_active(self@.clients, ts),
    {
        min_active_ts(&self.clients)
    }
}

/// `ts` is the least activity timestamp of the clients; zero when there are none.
pub open spec fn least_active(clients: Clients, ts: u32) -> bool {
    if clients.dom() == Set::<u64>::empty() {
        ts == 0
    } else {
        &&& exists|id: u64| #[trigger] clients.dom().contains(id) && clients[id].0 == ts
        &&& forall|id: u64| #[trigger] clients.dom().contains(id) ==> ts <= clients[id].0
    }
}

/// Get min active_ts across all clients (for GC).
pub fn min_active_ts(clients: &HashMap<u64, (u32, u64)>) -> (ts: u32)
    ensures
        least_active(clients@, ts),
{
    broadcast use vstd::std_specs::hash::group_hash_axioms;

    let ghost members = vstd::std_specs::iter::IteratorSpec::remaining(
        &vstd::std_specs::hash::spec_hash_map_iter(clients),
    );
    let mut best: Option<u32> = None;
    for entry in it: clients.iter()
        invariant
            it.seq() == members,
            match best {
                None => it.index() == 0,
                Some(b) => {
                    &&& exists|i: int|
                        0 <= i < it.index() && (#[trigger] members[i]).1.0 == b
                    &&& forall|i: int| 0 <= i < it.index() ==> b <= (#[trigger] members[i]).1.0
                },
            },
    {
        let ts: u32 = entry.1.0;
        let ghost k = it.index() as int;
        assert(members[k].1.0 == ts);
        best = match best {
            None => Some(ts),
            Some(b) => Some(
                if ts < b {
                    ts
                } else {
                    b
                },
            ),
        };
    }
    proof {
        assert forall|id: u64| #[trigger] clients@.dom().contains(id) implies members.len() > 0 by {
            assert(clients@.contains_key(id));
            assert(members.contains((&id, &clients@[id])));
        }
    }
    match best {
        None => {
            assert(clients@.dom() =~= Set::<u64>::empty());
            0
        },
        Some(b) => {
            proof {
                let i = choose|i: int| 0 <= i < members.len() && (#[trigger] members[i]).1.0 == b;
                let id = *members[i].0;
                assert(clients@.contains_key(*members[i].0));
                assert(clients@.dom().contains(id) && clients@[id].0 == b);
                assert forall|x: u64| #[trigger] clients@.dom().contains(x) implies b
                    <= clients@[x].0 by {
                    assert(clients@.contains_key(x));
                    assert(members.contains((&x, &clients@[x])));
                    let j = choose|j: int|
                        0 <= j < members.len() && members[j] == (&x, &clients@[x]);
                    assert(b <= members[j].1.0);
                }
            }
            b
        },
    }
}

// ---------------------------------------------------------------------------
// Laws
// ---------------------------------------------------------------------------
/// A client finds each region of a server in the metadata that the server
/// publishes.
pub proof fn law_discovery_names_every_region(
    generation: u64,
    bucket_count: u64,
    object_capacity: u64,
    free_list_addr: u64,
)
    requires
        bucket_count * 64 <= u64::MAX,
    ensures
        ({
            let m = discovered(generation, bucket_count, object_capacity, free_list_addr);
            &&& proto::region_of(m.regions, RegionType::HashTable) matches Some(r) && r.size
                == bucket_count * 64 && r.generation == generation
            &&& proto::region_of(m.regions, RegionType::LargeObject) matches Some(r) && r.size
                == object_capacity && r.generation == generation
            &&& proto::region_of(m.regions, RegionType::FreeList) matches Some(r) && r.size == 64
                && r.vaddr == free_list_addr && r.generation == generation
        }),
{
    reveal_with_fuel(proto::region_of, 4);
    let m = discovered(generation, bucket_count, object_capacity, free_list_addr);
    assert(m.regions.skip(1)[0] == m.regions[1]);
    assert(m.regions.skip(1).skip(1)[0] == m.regions[2]);
}

/// A client that is registered and then leaves is forgotten; the others stay.
pub proof fn law_deregistered_client_is_forgotten(clients: Clients, id: u64, entry: (u32, u64))
    ensures
        !clients.insert(id, entry).remove(id).dom().contains(id),
        forall|other: u64|
            other != id ==> (#[trigger] clients.insert(id, entry).remove(id).dom().contains(other)
                <==> clients.dom().contains(other)),
{
}

/// The metadata carries the generation of the server and the size of its table,
/// no region of it has a key, and only the free list has an address.
pub proof fn law_discovery_carries_the_table(
    generation: u64,
    bucket_count: u64,
    object_capacity: u64,
    free_list_addr: u64,
)
    ensures
        ({
            let m = discovered(generation, bucket_count, object_capacity, free_list_addr);
            &&& m.generation == generation
            &&& m.bucket_count == bucket_count
            &&& m.regions.len() == 3
            &&& forall|i: int| 0 <= i < 3 ==> (#[trigger] m.regions[i]).rkey == 0
            &&& m.regions[0].vaddr == 0 && m.regions[1].vaddr == 0
        }),
{
}

/// A heartbeat lowers the least activity timestamp to its own, where that is
/// lower, and otherwise leaves it. The first client sets it, and without clients it
/// is zero.
pub proof fn law_least_activity(clients: Clients, id: u64, entry: (u32, u64), before: u32, after: u32)
    requires
        !clients.dom().contains(id),
        least_active(clients, before),
        least_active(clients.insert(id, entry), after),
    ensures
        clients.dom() == Set::<u64>::empty() ==> before == 0 && after == entry.0,
        clients.dom() != Set::<u64>::empty() ==> after == (if entry.0 < before {
            entry.0
        } else {
            before
        }),
{
    let all = clients.insert(id, entry);
    assert(all.dom().contains(id));
    let who = choose|x: u64| #[trigger] all.dom().contains(x) && all[x].0 == after;
    assert forall|x: u64| #[trigger] clients.dom().contains(x) implies all.dom().contains(x)
        && all[x] == clients[x] by {}
    if clients.dom() == Set::<u64>::empty() {
        assert(!clients.dom().contains(who));
    } else {
        let least = choose|x: u64|
            #[trigger] clients.dom().contains(x) && clients[x].0 == before;
        assert(all.dom().contains(least));
        if who != id {
            assert(clients.dom().contains(who));
        }
    }
}

} // verus!
