//! The peer-connection configuration, its flat mirror, and the cache that
//! ties one boxed mirror to the configuration that owns it.

use vstd::prelude::*;
use libc::c_int;
use crate::heap::{address_range, Block, BlockView, NativeHeap, NULL};
use crate::ice_server::{
    address_set, lemma_address_set_push, lemma_server_frame, opt_blocks, opt_string_valid,
    opt_text, opt_valid, place_opt_text, release_all, IceServerView, RTCIceServer,
    RawRTCIceServer, MAX_COUNT,
};
use crate::policy::{BundelPolicy, IceTransportPolicy, RtcpMuxPolicy};
use crate::text::{
    lemma_string_at_block, lemma_text_round_trip, read_opt_string, represents_text, string_at,
    ProjectionError,
};

verus! {

/// The flat mirror of an [`RTCConfiguration`]. Field order is that of the
/// native layout.
#[derive(Clone, Copy, Debug, PartialEq, Eq, Structural)]
pub struct RawRTCPeerConnectionConfigure {
    pub bundle_policy: c_int,
    pub ice_transport_policy: c_int,
    /// Address of the peer identity text, or null.
    pub peer_identity: usize,
    pub rtcp_mux_policy: c_int,
    /// Address of the array of server mirrors, or null.
    pub ice_servers: usize,
    pub ice_servers_size: c_int,
    pub ice_servers_capacity: c_int,
    pub ice_candidate_pool_size: c_int,
}

/// The configuration of a peer connection. It owns at most one boxed mirror
/// on the native heap, made on the first call of `get_raw` and released by
/// `destroy`. The cache is private, so the projected state lasts until
/// `destroy`; `fields` names the six public fields in contracts.
#[derive(Debug)]
pub struct RTCConfiguration {
    /// How to negotiate candidates when the remote peer is not BUNDLE-aware.
    pub bundle_policy: Option<BundelPolicy>,
    /// Which ICE candidates are considered; all of them if unspecified.
    pub ice_transport_policy: Option<IceTransportPolicy>,
    /// The identity that the remote peer has to authenticate with.
    pub peer_identity: Option<String>,
    /// How RTCP candidates are gathered.
    pub rtcp_mux_policy: Option<RtcpMuxPolicy>,
    /// The servers that the ICE agent may use.
    pub ice_servers: Option<Vec<RTCIceServer>>,
    /// The size of the prefetched ICE candidate pool; 0 if unspecified.
    pub ice_candidate_pool_size: Option<u8>,
    /// The boxed mirror that the configuration owns, once `get_raw` made it.
    raw: OwningCache,
}

/// The six public fields of an [`RTCConfiguration`], as they are.
pub ghost struct ConfigurationFields {
    pub bundle_policy: Option<BundelPolicy>,
    pub ice_transport_policy: Option<IceTransportPolicy>,
    pub peer_identity: Option<String>,
    pub rtcp_mux_policy: Option<RtcpMuxPolicy>,
    pub ice_servers: Option<Vec<RTCIceServer>>,
    pub ice_candidate_pool_size: Option<u8>,
}

/// Two optional lists hold the same servers in the same order, or are both
/// absent.
pub open spec fn same_servers(
    a: Option<Vec<RTCIceServer>>,
    b: Option<Vec<RTCIceServer>>,
) -> bool {
    match (a, b) {
        (Some(x), Some(y)) => x@.len() == y@.len() && forall|i: int|
            0 <= i < x@.len() ==> (#[trigger] x@[i]).same_as(&y@[i]),
        (None, None) => true,
        _ => false,
    }
}

/// The cache of a configuration: unprojected until the first `get_raw`, then
/// projected, with the address of the boxed mirror, until `destroy`.
#[derive(Debug)]
pub struct OwningCache {
    address: Option<usize>,
}

/// The mathematical value of an [`RTCConfiguration`], without its cache. An
/// absent list of servers and an empty one are the same value, and so are an
/// absent pool size and a pool size of 0: the mirror cannot tell them apart.
pub ghost struct ConfigurationView {
    pub bundle_policy: Option<BundelPolicy>,
    pub ice_transport_policy: Option<IceTransportPolicy>,
    pub peer_identity: Option<Seq<char>>,
    pub rtcp_mux_policy: Option<RtcpMuxPolicy>,
    pub ice_servers: Seq<IceServerView>,
    pub ice_candidate_pool_size: u8,
}

/// The values of the servers of a list.
pub open spec fn server_views(list: Seq<RTCIceServer>) -> Seq<IceServerView> {
    Seq::new(list.len(), |i: int| list[i]@)
}

/// The values of the servers of an optional list.
pub open spec fn opt_server_views(list: Option<Vec<RTCIceServer>>) -> Seq<IceServerView> {
    match list {
        Some(l) => server_views(l@),
        None => Seq::empty(),
    }
}

/// The number of blocks that the projections of `servers` take together.
pub open spec fn servers_blocks(servers: Seq<IceServerView>) -> nat
    decreases servers.len(),
{
    if servers.len() == 0 {
        0
    } else {
        servers_blocks(servers.drop_last()) + servers.last().blocks_needed()
    }
}

/// The mirrors of `servers` on a heap whose next address is `base`, each
/// projected behind the one before it.
pub open spec fn server_mirrors(base: nat, servers: Seq<IceServerView>) -> Seq<RawRTCIceServer> {
    Seq::new(servers.len(), |i: int| servers[i].mirror(base + servers_blocks(servers.take(i))))
}

/// One block for the array of a list that is not empty.
pub open spec fn array_block(n: nat) -> nat {
    if n == 0 {
        0
    } else {
        1
    }
}

/// The array that `place_servers` returns for `servers` on a heap whose next
/// address was `base`, and the blocks that it leaves: the projections of the
/// servers in their order, then the array of their mirrors. An empty list
/// leaves nothing and gives the null address.
pub open spec fn servers_placed(
    base: nat,
    blocks: Map<usize, BlockView>,
    servers: Seq<IceServerView>,
    array: usize,
) -> bool {
    if servers.len() == 0 {
        array == NULL
    } else {
        &&& array == base + servers_blocks(servers)
        &&& array != NULL
        &&& blocks.contains_key(array)
        &&& blocks[array] == BlockView::Servers(server_mirrors(base, servers))
        &&& forall|i: int|
            0 <= i < servers.len() ==> (#[trigger] servers[i]).represented_by(
                blocks,
                server_mirrors(base, servers)[i],
            )
        &&& servers_owned(server_mirrors(base, servers), blocks) =~= address_range(base, array as nat)
    }
}

/// Every server of the list can cross the bridge.
pub open spec fn all_servers_valid(servers: Seq<IceServerView>) -> bool {
    forall|i: int| 0 <= i < servers.len() ==> (#[trigger] servers[i]).valid()
}

/// The mirrors' count fields can express every server of the list.
pub open spec fn all_servers_fit(servers: Seq<IceServerView>) -> bool {
    forall|i: int| 0 <= i < servers.len() ==> (#[trigger] servers[i]).fits()
}

/// Mirrors that read as servers keep doing so, and answer for the same blocks,
/// when the heap grows.
pub proof fn lemma_servers_frame(
    servers: Seq<IceServerView>,
    mirrors: Seq<RawRTCIceServer>,
    before: &NativeHeap,
    after: &NativeHeap,
)
    requires
        before.wf(),
        before.grown_to(after),
        mirrors.len() == servers.len(),
        forall|i: int|
            0 <= i < servers.len() ==> (#[trigger] servers[i]).represented_by(before@, mirrors[i]),
    ensures
        forall|i: int|
            0 <= i < servers.len() ==> (#[trigger] servers[i]).represented_by(after@, mirrors[i]),
        servers_owned(mirrors, after@) =~= servers_owned(mirrors, before@),
{
    assert forall|i: int| 0 <= i < servers.len() implies (#[trigger] servers[i]).represented_by(
        after@,
        mirrors[i],
    ) && mirrors[i].owned_blocks(after@) =~= mirrors[i].owned_blocks(before@) by {
        lemma_server_frame(servers[i], mirrors[i], before, after);
    }
    assert forall|a: usize| servers_owned(mirrors, after@).contains(a) implies servers_owned(
        mirrors,
        before@,
    ).contains(a) by {
        let j = choose|j: int|
            0 <= j < mirrors.len() && (#[trigger] mirrors[j]).owned_blocks(after@).contains(a);
        lemma_server_frame(servers[j], mirrors[j], before, after);
    }
    assert forall|a: usize| servers_owned(mirrors, before@).contains(a) implies servers_owned(
        mirrors,
        after@,
    ).contains(a) by {
        let j = choose|j: int|
            0 <= j < mirrors.len() && (#[trigger] mirrors[j]).owned_blocks(before@).contains(a);
        lemma_server_frame(servers[j], mirrors[j], before, after);
    }
}

/// Places the projections of the servers of `list` in their order, then the
/// array of their mirrors, and returns the array's address. The array has
/// exactly as many slots as the list has servers. An empty list takes no block
/// and gives the null address.
pub fn place_servers(heap: &mut NativeHeap, list: &Vec<RTCIceServer>) -> (array: usize)
    requires
        old(heap).wf(),
        all_servers_valid(server_views(list@)),
        all_servers_fit(server_views(list@)),
        servers_blocks(server_views(list@)) + array_block(list@.len()) <= old(heap).room(),
    ensures
        final(heap).wf(),
        final(heap).limit() == old(heap).limit(),
        final(heap).next() == old(heap).next() + servers_blocks(server_views(list@)) + array_block(
            list@.len(),
        ),
        old(heap).grown_to(final(heap)),
        servers_placed(old(heap).next(), final(heap)@, server_views(list@), array),
{
    let n = list.len();
    if n == 0 {
        return NULL;
    }
    let ghost before = *heap;
    let ghost base = heap.next();
    let ghost all = server_views(list@);
    let mut raws: Vec<RawRTCIceServer> = Vec::new();
    let mut i: usize = 0;
    proof {
        assert(all.take(0) =~= Seq::<IceServerView>::empty());
        assert(servers_owned(raws@, heap@) =~= address_range(base, heap.next()));
    }
    while i < n
        invariant
            heap.wf(),
            before.wf(),
            heap.limit() == before.limit(),
            base == before.next(),
            n == list@.len(),
            all == server_views(list@),
            all_servers_valid(all),
            all_servers_fit(all),
            servers_blocks(all) + 1 <= before.room(),
            i <= n,
            heap.next() == base + servers_blocks(all.take(i as int)),
            before.grown_to(heap),
            raws@.len() == i,
            forall|j: int|
                0 <= j < i ==> #[trigger] raws@[j] == all[j].mirror(
                    base + servers_blocks(all.take(j)),
                ),
            forall|j: int|
                0 <= j < i ==> (#[trigger] all.take(i as int)[j]).represented_by(heap@, raws@[j]),
            servers_owned(raws@, heap@) =~= address_range(base, heap.next()),
        decreases n - i,
    {
        let ghost mid = *heap;
        let ghost earlier = raws@;
        proof {
            lemma_servers_blocks_step(all, i as int);
            lemma_servers_blocks_prefix(all, i + 1);
            before.lemma_live_range();
            mid.lemma_live_range();
            assert(all[i as int].valid());
            assert(all[i as int].fits());
        }
        let raw = list[i].place(heap);
        raws.push(raw);
        proof {
            before.lemma_grown_trans(&mid, heap);
            lemma_servers_frame(all.take(i as int), earlier, &mid, heap);
            assert forall|j: int| 0 <= j < i + 1 implies (#[trigger] all.take(
                i + 1,
            )[j]).represented_by(heap@, raws@[j]) by {
                if j < i {
                    assert(all.take(i as int)[j].represented_by(heap@, earlier[j]));
                }
            }
            let range = address_range(base, heap.next());
            assert forall|a: usize| servers_owned(raws@, heap@).contains(a) implies range.contains(
                a,
            ) by {
                let j = choose|j: int|
                    0 <= j < raws@.len() && (#[trigger] raws@[j]).owned_blocks(heap@).contains(a);
                if j < i {
                    assert(earlier[j].owned_blocks(heap@).contains(a));
                    assert(servers_owned(earlier, heap@).contains(a));
                }
            }
            assert forall|a: usize| range.contains(a) implies servers_owned(raws@, heap@).contains(
                a,
            ) by {
                if a < mid.next() {
                    assert(servers_owned(earlier, heap@).contains(a));
                    let j = choose|j: int|
                        0 <= j < earlier.len() && (#[trigger] earlier[j]).owned_blocks(
                            heap@,
                        ).contains(a);
                    assert(raws@[j].owned_blocks(heap@).contains(a));
                } else {
                    assert(raws@[i as int].owned_blocks(heap@).contains(a));
                }
            }
        }
        i = i + 1;
    }
    let ghost mid = *heap;
    let ghost mirrors = raws@;
    proof {
        assert(all.take(n as int) =~= all);
        before.lemma_live_range();
        mid.lemma_live_range();
        assert(mirrors =~= server_mirrors(base, all));
    }
    let array = heap.place(Block::Servers(raws));
    proof {
        before.lemma_grown_trans(&mid, heap);
        lemma_servers_frame(all, mirrors, &mid, heap);
    }
    array
}

/// The addresses that the mirrors of `mirrors` answer for.
pub open spec fn servers_owned(mirrors: Seq<RawRTCIceServer>, blocks: Map<usize, BlockView>) -> Set<
    usize,
> {
    Set::new(
        |a: usize|
            exists|j: int|
                0 <= j < mirrors.len() && (#[trigger] mirrors[j]).owned_blocks(blocks).contains(a),
    )
}

/// The servers before any index take no more blocks than all of them.
pub proof fn lemma_servers_blocks_prefix(servers: Seq<IceServerView>, i: int)
    requires
        0 <= i <= servers.len(),
    ensures
        servers_blocks(servers.take(i)) <= servers_blocks(servers),
    decreases servers.len(),
{
    if i == servers.len() {
        assert(servers.take(i) =~= servers);
    } else {
        assert(servers.drop_last().take(i) =~= servers.take(i));
        lemma_servers_blocks_prefix(servers.drop_last(), i);
    }
}

/// One more server takes its own blocks on top of those before it.
pub proof fn lemma_servers_blocks_step(servers: Seq<IceServerView>, i: int)
    requires
        0 <= i < servers.len(),
    ensures
        servers_blocks(servers.take(i + 1)) == servers_blocks(servers.take(i))
            + servers[i].blocks_needed(),
{
    assert(servers.take(i + 1).drop_last() =~= servers.take(i));
}

impl View for RTCConfiguration {
    type V = ConfigurationView;

    open spec fn view(&self) -> ConfigurationView {
        let fields = self.fields();
        ConfigurationView {
            bundle_policy: fields.bundle_policy,
            ice_transport_policy: fields.ice_transport_policy,
            peer_identity: opt_text(fields.peer_identity),
            rtcp_mux_policy: fields.rtcp_mux_policy,
            ice_servers: opt_server_views(fields.ice_servers),
            ice_candidate_pool_size: match fields.ice_candidate_pool_size {
                Some(n) => n,
                None => 0u8,
            },
        }
    }
}

impl OwningCache {
    /// The address of the boxed mirror, once one was made.
    pub closed spec fn address(&self) -> Option<usize> {
        self.address
    }

    /// A cache that holds nothing yet.
    pub fn new() -> (cache: OwningCache)
        ensures
            cache.address() is None,
    {
        OwningCache { address: None }
    }

    /// The address of the boxed mirror, once one was made.
    pub fn get(&self) -> (address: Option<usize>)
        ensures
            address == self.address(),
    {
        self.address
    }
}

impl RTCConfiguration {
    /// The address of the boxed mirror that the configuration owns, if it owns
    /// one.
    pub closed spec fn cached(&self) -> Option<usize> {
        self.raw.address()
    }

    /// The six public fields of the configuration, each as it is.
    pub closed spec fn fields(&self) -> ConfigurationFields {
        ConfigurationFields {
            bundle_policy: self.bundle_policy,
            ice_transport_policy: self.ice_transport_policy,
            peer_identity: self.peer_identity,
            rtcp_mux_policy: self.rtcp_mux_policy,
            ice_servers: self.ice_servers,
            ice_candidate_pool_size: self.ice_candidate_pool_size,
        }
    }
}

impl ConfigurationView {
    /// Every text of the configuration can cross the bridge.
    pub open spec fn valid(self) -> bool {
        &&& all_servers_valid(self.ice_servers)
        &&& opt_valid(self.peer_identity)
    }

    /// The mirrors' count fields can express every list of the configuration.
    pub open spec fn fits(self) -> bool {
        &&& self.ice_servers.len() <= MAX_COUNT
        &&& all_servers_fit(self.ice_servers)
    }

    /// The number of native blocks that the projection takes: those of the
    /// servers, one for their array unless there is no server, and one for the
    /// peer identity if there is one.
    pub open spec fn blocks_needed(self) -> nat {
        servers_blocks(self.ice_servers) + (if self.ice_servers.len() == 0 {
            0nat
        } else {
            1nat
        }) + opt_blocks(self.peer_identity)
    }

    /// The mirror that a projection gives on a heap whose next address is
    /// `base`: the servers are placed first, in their order, then their array,
    /// then the peer identity.
    pub open spec fn mirror(self, base: nat) -> RawRTCPeerConnectionConfigure {
        let after_servers = base + servers_blocks(self.ice_servers);
        RawRTCPeerConnectionConfigure {
            bundle_policy: BundelPolicy::spec_encode(self.bundle_policy),
            ice_transport_policy: IceTransportPolicy::spec_encode(self.ice_transport_policy),
            peer_identity: if self.peer_identity is Some {
                (after_servers + if self.ice_servers.len() == 0 {
                    0nat
                } else {
                    1nat
                }) as usize
            } else {
                NULL
            },
            rtcp_mux_policy: RtcpMuxPolicy::spec_encode(self.rtcp_mux_policy),
            ice_servers: if self.ice_servers.len() == 0 {
                NULL
            } else {
                after_servers as usize
            },
            ice_servers_size: self.ice_servers.len() as c_int,
            ice_servers_capacity: self.ice_servers.len() as c_int,
            ice_candidate_pool_size: self.ice_candidate_pool_size as c_int,
        }
    }

    /// `raw` reads as this configuration in `blocks`: each policy field holds
    /// the code of its policy, or 0 for an absent one; the peer identity is
    /// null or the address of its native form; and the servers are found in
    /// their order behind `raw.ice_servers`, which is null exactly if there is
    /// none.
    pub open spec fn represented_by(
        self,
        blocks: Map<usize, BlockView>,
        raw: RawRTCPeerConnectionConfigure,
    ) -> bool {
        &&& raw.bundle_policy == BundelPolicy::spec_encode(self.bundle_policy)
        &&& raw.ice_transport_policy == IceTransportPolicy::spec_encode(self.ice_transport_policy)
        &&& raw.rtcp_mux_policy == RtcpMuxPolicy::spec_encode(self.rtcp_mux_policy)
        &&& raw.ice_candidate_pool_size == self.ice_candidate_pool_size
        &&& represents_text(blocks, raw.peer_identity, self.peer_identity)
        &&& raw.ice_servers_size == self.ice_servers.len()
        &&& raw.ice_servers_capacity == self.ice_servers.len()
        &&& raw.ice_servers == NULL <==> self.ice_servers.len() == 0
        &&& self.ice_servers.len() > 0 ==> {
            &&& blocks.contains_key(raw.ice_servers)
            &&& blocks[raw.ice_servers] is Servers
            &&& blocks[raw.ice_servers]->Servers_0.len() == self.ice_servers.len()
            &&& forall|i: int|
                0 <= i < self.ice_servers.len() ==> (#[trigger] self.ice_servers[i]).represented_by(
                    blocks,
                    blocks[raw.ice_servers]->Servers_0[i],
                )
        }
    }

    /// What a successful projection of this configuration from heap `before`
    /// to heap `after` gives: the mirror is the one that `mirror` names, the
    /// heap grew by exactly the blocks needed, the array holds the servers'
    /// mirrors, the mirror reads as this configuration, and it owns exactly
    /// the blocks that were added.
    pub open spec fn projected(
        self,
        before: &NativeHeap,
        after: &NativeHeap,
        raw: RawRTCPeerConnectionConfigure,
    ) -> bool {
        &&& raw == self.mirror(before.next())
        &&& after.next() == before.next() + self.blocks_needed()
        &&& before.grown_to(after)
        &&& self.ice_servers.len() > 0 ==> after@.contains_key(raw.ice_servers)
            && after@[raw.ice_servers] == BlockView::Servers(server_mirrors(before.next(), self.ice_servers))
        &&& self.represented_by(after@, raw)
        &&& raw.owned_blocks(after@) =~= address_range(before.next(), after.next())
    }

    /// What a successful first `get_raw` of this configuration from heap
    /// `before` to heap `after` gives: the configuration was projected, its
    /// mirror was boxed behind the projection at `address`, and the box and
    /// what the mirror owns are exactly the blocks that were added.
    pub open spec fn boxed(self, before: &NativeHeap, after: &NativeHeap, address: usize) -> bool {
        &&& address == before.next() + self.blocks_needed()
        &&& address != NULL
        &&& after.next() == address + 1
        &&& before.grown_to(after)
        &&& after@.contains_key(address)
        &&& after@[address] == BlockView::Configuration(self.mirror(before.next()))
        &&& self.represented_by(after@, self.mirror(before.next()))
        &&& box_owned(after@, address) =~= address_range(before.next(), after.next())
    }
}

impl RawRTCPeerConnectionConfigure {
    /// The addresses that the mirror answers for: its peer identity, its array
    /// of servers, and what each server of that array answers for.
    pub open spec fn owned_blocks(self, blocks: Map<usize, BlockView>) -> Set<usize> {
        Set::new(
            |a: usize|
                a != NULL && (a == self.peer_identity || a == self.ice_servers || (
                blocks.contains_key(self.ice_servers) && blocks[self.ice_servers] is Servers
                    && servers_owned(blocks[self.ice_servers]->Servers_0, blocks).contains(a))),
        )
    }
}

/// The addresses that a boxed mirror at `address` answers for: the box, and
/// what the mirror in it answers for.
pub open spec fn box_owned(blocks: Map<usize, BlockView>, address: usize) -> Set<usize> {
    if blocks.contains_key(address) {
        match blocks[address] {
            BlockView::Configuration(raw) => raw.owned_blocks(blocks).insert(address),
            _ => Set::empty().insert(address),
        }
    } else {
        Set::empty()
    }
}

/// Whether every server of the list can cross the bridge.
pub fn servers_valid(list: &Vec<RTCIceServer>) -> (ok: bool)
    ensures
        ok == all_servers_valid(server_views(list@)),
{
    let mut i: usize = 0;
    while i < list.len()
        invariant
            i <= list@.len(),
            forall|j: int| 0 <= j < i ==> (#[trigger] server_views(list@)[j]).valid(),
        decreases list@.len() - i,
    {
        if !list[i].is_valid() {
            assert(!server_views(list@)[i as int].valid());
            return false;
        }
        i = i + 1;
    }
    true
}

/// Whether the mirrors' count fields can express the list and each server of
/// it.
pub fn servers_fit(list: &Vec<RTCIceServer>) -> (ok: bool)
    ensures
        ok == (list@.len() <= MAX_COUNT && all_servers_fit(server_views(list@))),
{
    if list.len() > MAX_COUNT {
        return false;
    }
    let mut i: usize = 0;
    while i < list.len()
        invariant
            i <= list@.len(),
            forall|j: int| 0 <= j < i ==> (#[trigger] server_views(list@)[j]).fits(),
        decreases list@.len() - i,
    {
        if !list[i].fits() {
            assert(!server_views(list@)[i as int].fits());
            return false;
        }
        i = i + 1;
    }
    true
}

/// The number of blocks that the projections of the servers of `list` take
/// together, or `None` if they take more than `room`.
pub fn count_servers_blocks(list: &Vec<RTCIceServer>, room: usize) -> (count: Option<usize>)
    requires
        all_servers_fit(server_views(list@)),
    ensures
        count is Some <==> servers_blocks(server_views(list@)) <= room,
        count is Some ==> count.unwrap() == servers_blocks(server_views(list@)),
{
    let ghost all = server_views(list@);
    let mut total: usize = 0;
    let mut i: usize = 0;
    proof {
        assert(all.take(0) =~= Seq::<IceServerView>::empty());
    }
    while i < list.len()
        invariant
            i <= list@.len(),
            all == server_views(list@),
            all_servers_fit(all),
            total <= room,
            total == servers_blocks(all.take(i as int)),
        decreases list@.len() - i,
    {
        proof {
            lemma_servers_blocks_step(all, i as int);
            lemma_servers_blocks_prefix(all, i + 1);
            assert(all[i as int].fits());
        }
        let blocks = list[i].count_blocks();
        if blocks > room - total {
            return None;
        }
        total = total + blocks;
        i = i + 1;
    }
    proof {
        assert(all.take(list@.len() as int) =~= all);
    }
    Some(total)
}

impl Default for RTCConfiguration {
    /// A configuration with nothing specified and nothing projected.
    fn default() -> (config: RTCConfiguration)
        ensures
            config.fields() == (ConfigurationFields {
                bundle_policy: None,
                ice_transport_policy: None,
                peer_identity: None,
                rtcp_mux_policy: None,
                ice_servers: None,
                ice_candidate_pool_size: None,
            }),
            config.cached() is None,
    {
        RTCConfiguration::new()
    }
}

impl RTCConfiguration {
    /// A configuration with nothing specified and nothing projected.
    pub fn new() -> (config: RTCConfiguration)
        ensures
            config.fields() == (ConfigurationFields {
                bundle_policy: None,
                ice_transport_policy: None,
                peer_identity: None,
                rtcp_mux_policy: None,
                ice_servers: None,
                ice_candidate_pool_size: None,
            }),
            config.cached() is None,
    {
        RTCConfiguration {
            bundle_policy: None,
            ice_transport_policy: None,
            peer_identity: None,
            rtcp_mux_policy: None,
            ice_servers: None,
            ice_candidate_pool_size: None,
            raw: OwningCache::new(),
        }
    }

    /// A configuration with the given fields and nothing projected.
    pub fn from_parts(
        bundle_policy: Option<BundelPolicy>,
        ice_transport_policy: Option<IceTransportPolicy>,
        peer_identity: Option<String>,
        rtcp_mux_policy: Option<RtcpMuxPolicy>,
        ice_servers: Option<Vec<RTCIceServer>>,
        ice_candidate_pool_size: Option<u8>,
    ) -> (config: RTCConfiguration)
        ensures
            config.fields() == (ConfigurationFields {
                bundle_policy,
                ice_transport_policy,
                peer_identity,
                rtcp_mux_policy,
                ice_servers,
                ice_candidate_pool_size,
            }),
            config.cached() is None,
    {
        RTCConfiguration {
            bundle_policy,
            ice_transport_policy,
            peer_identity,
            rtcp_mux_policy,
            ice_servers,
            ice_candidate_pool_size,
            raw: OwningCache::new(),
        }
    }

    /// The address of the boxed mirror that the configuration owns, if it owns
    /// one.
    pub fn cached_address(&self) -> (address: Option<usize>)
        ensures
            address == self.cached(),
    {
        self.raw.get()
    }

    /// A copy of the configuration that owns no mirror: its six fields hold
    /// what those of this one hold, and its cache is empty, whatever this one
    /// has projected. Its first `get_raw` projects a mirror of its own.
    pub fn duplicate(&self) -> (copy: RTCConfiguration)
        ensures
            copy@ == self@,
            copy.cached() is None,
            copy.fields().bundle_policy == self.fields().bundle_policy,
            copy.fields().ice_transport_policy == self.fields().ice_transport_policy,
            copy.fields().rtcp_mux_policy == self.fields().rtcp_mux_policy,
            copy.fields().ice_candidate_pool_size == self.fields().ice_candidate_pool_size,
            copy.fields().peer_identity == self.fields().peer_identity,
            same_servers(copy.fields().ice_servers, self.fields().ice_servers),
    {
        let peer_identity = match &self.peer_identity {
            Some(text) => Some(text.clone()),
            None => None,
        };
        let ice_servers = match &self.ice_servers {
            Some(list) => {
                let mut copies: Vec<RTCIceServer> = Vec::new();
                let mut i: usize = 0;
                while i < list.len()
                    invariant
                        i <= list@.len(),
                        copies@.len() == i,
                        forall|j: int| 0 <= j < i ==> (#[trigger] copies@[j]).same_as(&list@[j]),
                        forall|j: int| 0 <= j < i ==> (#[trigger] copies@[j])@ == list@[j]@,
                    decreases list@.len() - i,
                {
                    copies.push(list[i].duplicate());
                    i = i + 1;
                }
                assert(server_views(copies@) =~= server_views(list@));
                Some(copies)
            },
            None => None,
        };
        RTCConfiguration {
            bundle_policy: self.bundle_policy,
            ice_transport_policy: self.ice_transport_policy,
            peer_identity,
            rtcp_mux_policy: self.rtcp_mux_policy,
            ice_servers,
            ice_candidate_pool_size: self.ice_candidate_pool_size,
            raw: OwningCache::new(),
        }
    }

    /// Whether every text of the configuration can cross the bridge.
    pub fn is_valid(&self) -> (ok: bool)
        ensures
            ok == self@.valid(),
    {
        let servers_ok = match &self.ice_servers {
            Some(list) => servers_valid(list),
            None => true,
        };
        servers_ok && opt_string_valid(&self.peer_identity)
    }

    /// Whether the mirrors' count fields can express every list of the
    /// configuration.
    pub fn fits(&self) -> (ok: bool)
        ensures
            ok == self@.fits(),
    {
        match &self.ice_servers {
            Some(list) => servers_fit(list),
            None => true,
        }
    }

    /// The number of native blocks that the projection takes, or `None` if it
    /// takes more than `room`.
    pub fn count_blocks(&self, room: usize) -> (count: Option<usize>)
        requires
            self@.fits(),
        ensures
            count is Some <==> self@.blocks_needed() <= room,
            count is Some ==> count.unwrap() == self@.blocks_needed(),
    {
        let extra: usize = match &self.ice_servers {
            Some(list) => if list.len() == 0 {
                0
            } else {
                1
            },
            None => 0,
        } + if self.peer_identity.is_some() {
            1
        } else {
            0
        };
        if extra > room {
            return None;
        }
        match &self.ice_servers {
            Some(list) => match count_servers_blocks(list, room - extra) {
                Some(n) => Some(n + extra),
                None => None,
            },
            None => Some(extra),
        }
    }

    /// Projects a configuration whose texts are valid onto a heap that has
    /// room for it: the servers and their array first, then the peer identity.
    pub fn place(&self, heap: &mut NativeHeap) -> (raw: RawRTCPeerConnectionConfigure)
        requires
            old(heap).wf(),
            self@.valid(),
            self@.fits(),
            self@.blocks_needed() <= old(heap).room(),
        ensures
            final(heap).wf(),
            final(heap).limit() == old(heap).limit(),
            self@.projected(old(heap), final(heap), raw),
    {
        let ghost before = *heap;
        let ghost base = heap.next();
        let ghost view = self@;
        let (ice_servers, n): (usize, usize) = match &self.ice_servers {
            Some(list) => (place_servers(heap, list), list.len()),
            None => (NULL, 0),
        };
        let ghost mid = *heap;
        proof {
            before.lemma_live_range();
            assert(view.ice_servers.len() == n);
            assert(servers_placed(base, mid@, view.ice_servers, ice_servers));
        }
        let peer_identity = place_opt_text(heap, &self.peer_identity);
        let raw = RawRTCPeerConnectionConfigure {
            bundle_policy: BundelPolicy::encode(self.bundle_policy),
            ice_transport_policy: IceTransportPolicy::encode(self.ice_transport_policy),
            peer_identity,
            rtcp_mux_policy: RtcpMuxPolicy::encode(self.rtcp_mux_policy),
            ice_servers,
            ice_servers_size: n as c_int,
            ice_servers_capacity: n as c_int,
            ice_candidate_pool_size: match self.ice_candidate_pool_size {
                Some(size) => size as c_int,
                None => 0,
            },
        };
        proof {
            heap.lemma_live_range();
            mid.lemma_live_range();
            before.lemma_grown_trans(&mid, heap);
            if n > 0 {
                assert(mid@.contains_key(ice_servers));
                let mirrors = server_mirrors(base, view.ice_servers);
                lemma_servers_frame(view.ice_servers, mirrors, &mid, heap);
                assert(heap@[ice_servers] == BlockView::Servers(mirrors));
                assert(servers_owned(mirrors, heap@) =~= address_range(base, ice_servers as nat));
            } else {
                assert(servers_blocks(view.ice_servers) == 0);
            }
            assert(raw == view.mirror(base));
            assert(raw.owned_blocks(heap@) =~= address_range(before.next(), heap.next()));
        }
        raw
    }

    /// Projects the configuration onto the heap. Nothing is allocated unless
    /// the whole projection can be: a text with a zero byte, a list too long
    /// for the mirror or a heap with too little room leave the heap as it was.
    pub fn project(&self, heap: &mut NativeHeap) -> (r: Result<
        RawRTCPeerConnectionConfigure,
        ProjectionError,
    >)
        requires
            old(heap).wf(),
        ensures
            final(heap).wf(),
            final(heap).limit() == old(heap).limit(),
            r is Ok <==> self@.valid() && self@.fits() && self@.blocks_needed() <= old(
                heap,
            ).room(),
            r == Err::<RawRTCPeerConnectionConfigure, ProjectionError>(
                ProjectionError::InvalidText,
            ) <==> !self@.valid(),
            r is Err ==> final(heap).same_as(old(heap)),
            r is Ok ==> self@.projected(old(heap), final(heap), r.unwrap()),
    {
        if !self.is_valid() {
            return Err(ProjectionError::InvalidText);
        }
        if !self.fits() {
            return Err(ProjectionError::AllocationFailure);
        }
        match self.count_blocks(heap.remaining()) {
            Some(_) => Ok(self.place(heap)),
            None => Err(ProjectionError::AllocationFailure),
        }
    }
}

/// The mirrors up to and including one answer for what those before it answer
/// for and what it answers for itself.
pub proof fn lemma_servers_owned_step(
    mirrors: Seq<RawRTCIceServer>,
    i: int,
    blocks: Map<usize, BlockView>,
)
    requires
        0 <= i < mirrors.len(),
    ensures
        servers_owned(mirrors.take(i + 1), blocks) =~= servers_owned(mirrors.take(i), blocks)
            + mirrors[i].owned_blocks(blocks),
{
    let shorter = mirrors.take(i);
    let longer = mirrors.take(i + 1);
    assert forall|a: usize| servers_owned(longer, blocks).contains(a) implies (servers_owned(
        shorter,
        blocks,
    ) + mirrors[i].owned_blocks(blocks)).contains(a) by {
        let j = choose|j: int|
            0 <= j < longer.len() && (#[trigger] longer[j]).owned_blocks(blocks).contains(a);
        if j < i {
            assert(shorter[j].owned_blocks(blocks).contains(a));
        }
    }
    assert forall|a: usize|
        (servers_owned(shorter, blocks) + mirrors[i].owned_blocks(blocks)).contains(
            a,
        ) implies servers_owned(longer, blocks).contains(a) by {
        if mirrors[i].owned_blocks(blocks).contains(a) {
            assert(longer[i].owned_blocks(blocks).contains(a));
        } else {
            let j = choose|j: int|
                0 <= j < shorter.len() && (#[trigger] shorter[j]).owned_blocks(blocks).contains(a);
            assert(longer[j].owned_blocks(blocks).contains(a));
        }
    }
}

/// A mirror that reads as a configuration keeps doing so, and answers for the
/// same blocks, when the heap grows.
pub proof fn lemma_configuration_frame(
    view: ConfigurationView,
    raw: RawRTCPeerConnectionConfigure,
    before: &NativeHeap,
    after: &NativeHeap,
)
    requires
        before.wf(),
        before.grown_to(after),
        view.represented_by(before@, raw),
    ensures
        view.represented_by(after@, raw),
        raw.owned_blocks(after@) =~= raw.owned_blocks(before@),
{
    before.lemma_live_range();
    after.lemma_live_range_of(before);
    if view.ice_servers.len() > 0 {
        assert(before@.contains_key(raw.ice_servers));
        let mirrors = before@[raw.ice_servers]->Servers_0;
        lemma_servers_frame(view.ice_servers, mirrors, before, after);
    }
    if view.peer_identity is Some {
        assert(before@.contains_key(raw.peer_identity));
    }
}

impl RawRTCPeerConnectionConfigure {
    /// Appends to `out` every address that the mirror answers for: what each
    /// server of the array answers for, the array, and the peer identity. Null
    /// addresses are left out.
    pub fn collect(&self, heap: &NativeHeap, out: &mut Vec<usize>)
        ensures
            address_set(final(out)@) =~= address_set(old(out)@) + self.owned_blocks(heap@),
    {
        let ghost start = address_set(out@);
        match heap.servers(self.ice_servers) {
            Some(mirrors) => {
                let mut i: usize = 0;
                proof {
                    assert(servers_owned(mirrors@.take(0), heap@) =~= Set::<usize>::empty());
                }
                while i < mirrors.len()
                    invariant
                        i <= mirrors@.len(),
                        address_set(out@) =~= start + servers_owned(
                            mirrors@.take(i as int),
                            heap@,
                        ),
                    decreases mirrors@.len() - i,
                {
                    mirrors[i].collect(heap, out);
                    proof {
                        lemma_servers_owned_step(mirrors@, i as int, heap@);
                    }
                    i = i + 1;
                }
                assert(mirrors@.take(mirrors@.len() as int) =~= mirrors@);
            },
            None => {},
        }
        let ghost mid1 = out@;
        if self.ice_servers != NULL {
            out.push(self.ice_servers);
            proof {
                lemma_address_set_push(mid1, self.ice_servers);
            }
        }
        let ghost mid2 = out@;
        if self.peer_identity != NULL {
            out.push(self.peer_identity);
            proof {
                lemma_address_set_push(mid2, self.peer_identity);
            }
        }
    }

    /// Releases every block that the mirror answers for: the blocks of each
    /// server, the array of servers, and the peer identity, and returns the
    /// number of blocks released. An address that is null or no longer live is
    /// passed over. The mirror's addresses are cleared right after the
    /// release, and the counts of its array with them, so a second release
    /// finds nothing to release. The policy codes and the pool size stay.
    pub fn release(&mut self, heap: &mut NativeHeap) -> (count: usize)
        requires
            old(heap).wf(),
        ensures
            final(heap).wf(),
            final(heap).limit() == old(heap).limit(),
            final(heap).next() == old(heap).next(),
            final(heap)@ == old(heap)@.remove_keys(old(self).owned_blocks(old(heap)@)),
            count == old(heap).live() - final(heap).live(),
            final(self).peer_identity == NULL,
            final(self).ice_servers == NULL,
            final(self).ice_servers_size == 0,
            final(self).ice_servers_capacity == 0,
            final(self).bundle_policy == old(self).bundle_policy,
            final(self).ice_transport_policy == old(self).ice_transport_policy,
            final(self).rtcp_mux_policy == old(self).rtcp_mux_policy,
            final(self).ice_candidate_pool_size == old(self).ice_candidate_pool_size,
    {
        let mut addresses: Vec<usize> = Vec::new();
        self.collect(heap, &mut addresses);
        assert(address_set(Seq::<usize>::empty()) =~= Set::<usize>::empty());
        let count = release_all(heap, &addresses);
        self.peer_identity = NULL;
        self.ice_servers = NULL;
        self.ice_servers_size = 0;
        self.ice_servers_capacity = 0;
        count
    }
}

/// The first `n` mirrors read as the first `n` servers of `list`, in their
/// order, and as no other servers.
pub open spec fn servers_read(
    blocks: Map<usize, BlockView>,
    mirrors: Seq<RawRTCIceServer>,
    list: Seq<IceServerView>,
    n: int,
) -> bool {
    &&& forall|j: int| 0 <= j < n ==> list[j].represented_by(blocks, #[trigger] mirrors[j])
    &&& forall|j: int, v: IceServerView|
        0 <= j < n && #[trigger] v.represented_by(blocks, mirrors[j]) ==> v == list[j]
}

impl RawRTCPeerConnectionConfigure {
    /// Reads the configuration back from its mirror, with an empty cache. The
    /// result is `None` if the mirror does not read as any configuration in
    /// this heap: a code stands for no policy, the pool size is out of range,
    /// a text is missing or is not UTF-8, a server does not read back, or the
    /// counts and the array disagree.
    pub fn read(&self, heap: &NativeHeap) -> (config: Option<RTCConfiguration>)
        ensures
            config is Some ==> config.unwrap()@.represented_by(heap@, *self)
                && config.unwrap().cached() is None,
            forall|v: ConfigurationView| #[trigger]
                v.represented_by(heap@, *self) ==> config is Some && config.unwrap()@ == v,
    {
        proof {
            assert forall|v: ConfigurationView| #[trigger]
                v.represented_by(heap@, *self) && v.peer_identity is Some implies string_at(
                heap@,
                self.peer_identity,
            ) == v.peer_identity by {
                lemma_text_round_trip(heap@, self.peer_identity, v.peer_identity.unwrap());
            }
            if self.peer_identity != NULL && string_at(heap@, self.peer_identity) is Some {
                lemma_string_at_block(heap@, self.peer_identity);
            }
        }
        let bundle_policy = match BundelPolicy::decode(self.bundle_policy) {
            Some(policy) => policy,
            None => {
                return None;
            },
        };
        let ice_transport_policy = match IceTransportPolicy::decode(self.ice_transport_policy) {
            Some(policy) => policy,
            None => {
                return None;
            },
        };
        let rtcp_mux_policy = match RtcpMuxPolicy::decode(self.rtcp_mux_policy) {
            Some(policy) => policy,
            None => {
                return None;
            },
        };
        if self.ice_candidate_pool_size < 0 || self.ice_candidate_pool_size > 255 {
            return None;
        }
        let ice_candidate_pool_size: Option<u8> = if self.ice_candidate_pool_size == 0 {
            None
        } else {
            Some(self.ice_candidate_pool_size as u8)
        };
        let peer_identity = match read_opt_string(heap, self.peer_identity) {
            Some(text) => text,
            None => {
                return None;
            },
        };
        if self.ice_servers_size < 0 || self.ice_servers_capacity != self.ice_servers_size {
            return None;
        }
        let n: usize = self.ice_servers_size as usize;
        if self.ice_servers == NULL {
            if n != 0 {
                return None;
            }
            let config = RTCConfiguration {
                bundle_policy,
                ice_transport_policy,
                peer_identity,
                rtcp_mux_policy,
                ice_servers: None,
                ice_candidate_pool_size,
                raw: OwningCache::new(),
            };
            assert forall|v: ConfigurationView| #[trigger]
                v.represented_by(heap@, *self) implies config@ == v by {
                assert(config@.ice_servers =~= v.ice_servers);
                assert(config@.peer_identity == v.peer_identity);
            }
            return Some(config);
        }
        let mirrors = match heap.servers(self.ice_servers) {
            Some(mirrors) => mirrors,
            None => {
                return None;
            },
        };
        if n == 0 || mirrors.len() != n {
            return None;
        }
        let mut list: Vec<RTCIceServer> = Vec::new();
        let mut i: usize = 0;
        while i < n
            invariant
                n == mirrors@.len(),
                n == self.ice_servers_size,
                i <= n,
                list@.len() == i,
                heap@.contains_key(self.ice_servers),
                heap@[self.ice_servers] == BlockView::Servers(mirrors@),
                servers_read(heap@, mirrors@, server_views(list@), i as int),
            decreases n - i,
        {
            let server = match mirrors[i].read(heap) {
                Some(server) => server,
                None => {
                    assert forall|v: ConfigurationView| #[trigger]
                        v.represented_by(heap@, *self) implies false by {
                        assert(v.ice_servers[i as int].represented_by(heap@, mirrors@[i as int]));
                    }
                    return None;
                },
            };
            let ghost earlier = server_views(list@);
            list.push(server);
            proof {
                let now = server_views(list@);
                assert forall|j: int| 0 <= j < i + 1 implies now[j].represented_by(
                    heap@,
                    #[trigger] mirrors@[j],
                ) by {
                    if j < i {
                        assert(now[j] == earlier[j]);
                    }
                }
                assert forall|j: int, v: IceServerView|
                    0 <= j < i + 1 && #[trigger] v.represented_by(
                        heap@,
                        mirrors@[j],
                    ) implies v == now[j] by {
                    if j < i {
                        assert(now[j] == earlier[j]);
                    }
                }
            }
            i = i + 1;
        }
        let config = RTCConfiguration {
            bundle_policy,
            ice_transport_policy,
            peer_identity,
            rtcp_mux_policy,
            ice_servers: Some(list),
            ice_candidate_pool_size,
            raw: OwningCache::new(),
        };
        proof {
            assert forall|j: int| 0 <= j < n implies (#[trigger] config@.ice_servers[j]).represented_by(
                heap@,
                mirrors@[j],
            ) by {
                assert(server_views(list@)[j].represented_by(heap@, mirrors@[j]));
            }
            assert forall|v: ConfigurationView| #[trigger]
                v.represented_by(heap@, *self) implies config@ == v by {
                assert forall|k: int| 0 <= k < v.ice_servers.len() implies config@.ice_servers[k]
                    == v.ice_servers[k] by {
                    assert(v.ice_servers[k].represented_by(heap@, mirrors@[k]));
                }
                assert(config@.ice_servers =~= v.ice_servers);
                assert(config@.peer_identity == v.peer_identity);
            }
        }
        Some(config)
    }
}

/// Releases the boxed mirror at `address` and every block that the mirror
/// answers for, and returns the number of blocks released. Nothing happens if
/// no block is live at `address`.
pub fn release_box(heap: &mut NativeHeap, address: usize) -> (count: usize)
    requires
        old(heap).wf(),
    ensures
        final(heap).wf(),
        final(heap).limit() == old(heap).limit(),
        final(heap).next() == old(heap).next(),
        final(heap)@ == old(heap)@.remove_keys(box_owned(old(heap)@, address)),
        count == old(heap).live() - final(heap).live(),
{
    let mut addresses: Vec<usize> = Vec::new();
    assert(address_set(addresses@) =~= Set::<usize>::empty());
    match heap.configuration(address) {
        Some(raw) => {
            raw.collect(heap, &mut addresses);
        },
        None => {},
    }
    let ghost listed = addresses@;
    addresses.push(address);
    proof {
        lemma_address_set_push(listed, address);
    }
    let count = release_all(heap, &addresses);
    assert(heap@ =~= old(heap)@.remove_keys(box_owned(old(heap)@, address)));
    count
}

impl RTCConfiguration {
    /// The address of the boxed mirror of this configuration. The first call
    /// projects the configuration, boxes the mirror and remembers the address;
    /// every later call returns that address and touches nothing, whatever was
    /// changed in the configuration since. A first call that cannot project
    /// leaves heap and cache as they were. No call changes any of the six
    /// public fields.
    pub fn get_raw(&mut self, heap: &mut NativeHeap) -> (r: Result<usize, ProjectionError>)
        requires
            old(heap).wf(),
        ensures
            final(heap).wf(),
            final(heap).limit() == old(heap).limit(),
            final(self).fields() == old(self).fields(),
            final(self)@ == old(self)@,
            old(self).cached() is Some ==> {
                &&& r == Ok::<usize, ProjectionError>(old(self).cached().unwrap())
                &&& final(self).cached() == old(self).cached()
                &&& final(heap).same_as(old(heap))
            },
            old(self).cached() is None ==> {
                &&& r is Ok <==> old(self)@.valid() && old(self)@.fits() && old(
                    self,
                )@.blocks_needed() + 1 <= old(heap).room()
                &&& r == Err::<usize, ProjectionError>(ProjectionError::InvalidText) <==> !old(
                    self,
                )@.valid()
                &&& r is Err ==> final(self).cached() is None && final(heap).same_as(old(heap))
                &&& r is Ok ==> final(self).cached() == Some(r.unwrap()) && old(self)@.boxed(
                    old(heap),
                    final(heap),
                    r.unwrap(),
                )
            },
    {
        if let Some(address) = self.raw.get() {
            return Ok(address);
        }
        if !self.is_valid() {
            return Err(ProjectionError::InvalidText);
        }
        if !self.fits() {
            return Err(ProjectionError::AllocationFailure);
        }
        let room = heap.remaining();
        if room == 0 {
            return Err(ProjectionError::AllocationFailure);
        }
        if self.count_blocks(room - 1).is_none() {
            return Err(ProjectionError::AllocationFailure);
        }
        let ghost before = *heap;
        let raw = self.place(heap);
        let ghost mid = *heap;
        proof {
            before.lemma_live_range();
            mid.lemma_live_range();
        }
        let address = heap.place(Block::Configuration(raw));
        self.raw = OwningCache { address: Some(address) };
        proof {
            before.lemma_grown_trans(&mid, heap);
            lemma_configuration_frame(old(self)@, raw, &mid, heap);
            assert(box_owned(heap@, address) =~= address_range(before.next(), heap.next()));
        }
        Ok(address)
    }

    /// Ends the life of the configuration: releases the boxed mirror that it
    /// owns, and every block that the mirror answers for, each once, and
    /// returns the number of blocks released. A configuration that was never
    /// projected releases nothing.
    pub fn destroy(self, heap: &mut NativeHeap) -> (count: usize)
        requires
            old(heap).wf(),
        ensures
            final(heap).wf(),
            final(heap).limit() == old(heap).limit(),
            final(heap).next() == old(heap).next(),
            self.cached() is None ==> final(heap)@ == old(heap)@ && count == 0,
            self.cached() is Some ==> final(heap)@ == old(heap)@.remove_keys(
                box_owned(old(heap)@, self.cached().unwrap()),
            ),
            count == old(heap).live() - final(heap).live(),
    {
        match self.raw.get() {
            Some(address) => release_box(heap, address),
            None => 0,
        }
    }
}

/// Round trip: a mirror reads as at most one configuration in a heap, so what
/// is read back from the projection of a configuration is that configuration,
/// field for field.
pub proof fn lemma_round_trip(
    blocks: Map<usize, BlockView>,
    raw: RawRTCPeerConnectionConfigure,
    source: ConfigurationView,
    read_back: ConfigurationView,
)
    requires
        source.represented_by(blocks, raw),
        read_back.represented_by(blocks, raw),
    ensures
        read_back == source,
{
    if source.peer_identity is Some {
        lemma_text_round_trip(blocks, raw.peer_identity, source.peer_identity.unwrap());
        lemma_text_round_trip(blocks, raw.peer_identity, read_back.peer_identity.unwrap());
    }
    assert forall|i: int| 0 <= i < source.ice_servers.len() implies source.ice_servers[i]
        == read_back.ice_servers[i] by {
        let mirror = blocks[raw.ice_servers]->Servers_0[i];
        assert(source.ice_servers[i].represented_by(blocks, mirror));
        assert(read_back.ice_servers[i].represented_by(blocks, mirror));
        crate::ice_server::lemma_round_trip(
            blocks,
            mirror,
            source.ice_servers[i],
            read_back.ice_servers[i],
        );
    }
    assert(source.ice_servers =~= read_back.ice_servers);
}

/// A configuration without servers projects to the null array with size and
/// capacity 0, wherever the projection starts.
pub proof fn lemma_empty_servers_mirror(view: ConfigurationView, base: nat)
    requires
        view.ice_servers.len() == 0,
    ensures
        view.mirror(base).ice_servers == NULL,
        view.mirror(base).ice_servers_size == 0,
        view.mirror(base).ice_servers_capacity == 0,
{
}

/// A configuration with nothing set projects to the mirror whose every policy
/// field is 0 and whose every address is null, and takes no block.
pub proof fn lemma_absent_mirror(view: ConfigurationView, base: nat)
    requires
        view.bundle_policy is None,
        view.ice_transport_policy is None,
        view.rtcp_mux_policy is None,
        view.peer_identity is None,
        view.ice_servers.len() == 0,
        view.ice_candidate_pool_size == 0,
    ensures
        view.mirror(base) == (RawRTCPeerConnectionConfigure {
            bundle_policy: 0,
            ice_transport_policy: 0,
            peer_identity: NULL,
            rtcp_mux_policy: 0,
            ice_servers: NULL,
            ice_servers_size: 0,
            ice_servers_capacity: 0,
            ice_candidate_pool_size: 0,
        }),
        view.blocks_needed() == 0,
{
}

/// Releasing a configuration mirror that was just projected gives back the
/// blocks that the heap held before the projection, and no other. Their number
/// is the number of blocks that the configuration needs.
pub proof fn lemma_release_undoes_projection(
    view: ConfigurationView,
    before: &NativeHeap,
    after: &NativeHeap,
    raw: RawRTCPeerConnectionConfigure,
)
    requires
        before.wf(),
        after.wf(),
        view.projected(before, after, raw),
    ensures
        after@.remove_keys(raw.owned_blocks(after@)) == before@,
        after.live() - before.live() == view.blocks_needed(),
{
    before.lemma_live_range();
    before.lemma_grown_live(after);
    assert(after@.remove_keys(raw.owned_blocks(after@)) =~= before@);
}

/// Destroying a configuration right after its first `get_raw` gives back the
/// blocks that the heap held before that call, and no other: every block that
/// the call allocated is released, and only those. Their number is the number
/// of blocks that the configuration needs and one for the box.
pub proof fn lemma_destroy_undoes_get_raw(
    view: ConfigurationView,
    before: &NativeHeap,
    after: &NativeHeap,
    address: usize,
)
    requires
        before.wf(),
        after.wf(),
        view.boxed(before, after, address),
    ensures
        after@.remove_keys(box_owned(after@, address)) == before@,
        after.live() - before.live() == view.blocks_needed() + 1,
{
    before.lemma_live_range();
    before.lemma_grown_live(after);
    assert(after@.remove_keys(box_owned(after@, address)) =~= before@);
}

/// A mirror that reads as a configuration is not touched by the life of
/// another configuration: it reads as before, and answers for the same
/// blocks, after the other one's first `get_raw`, and again after the other
/// one is destroyed.
pub proof fn lemma_mirror_outlives_other(
    kept: ConfigurationView,
    raw: RawRTCPeerConnectionConfigure,
    other: ConfigurationView,
    before: &NativeHeap,
    after: &NativeHeap,
    address: usize,
)
    requires
        before.wf(),
        after.wf(),
        kept.represented_by(before@, raw),
        other.boxed(before, after, address),
    ensures
        kept.represented_by(after@, raw),
        raw.owned_blocks(after@) == raw.owned_blocks(before@),
        kept.represented_by(after@.remove_keys(box_owned(after@, address)), raw),
        raw.owned_blocks(after@.remove_keys(box_owned(after@, address))) == raw.owned_blocks(
            before@,
        ),
{
    lemma_configuration_frame(kept, raw, before, after);
    lemma_destroy_undoes_get_raw(other, before, after, address);
}

} // verus!
