use batrachia::configuration::{release_box, RTCConfiguration};
use batrachia::heap::{Block, NativeHeap, NULL};
use batrachia::ice_server::{
    collect_strings, place_strings, project_strings, release_all, release_strings, ProjectedArray,
    RTCIceServer, RawRTCIceServer,
};
use batrachia::policy::{BundelPolicy, IceTransportPolicy, RtcpMuxPolicy, UNSPECIFIED};
use batrachia::text::{
    encode_text, free_cstring, has_interior_nul, read_opt_string, read_string, read_text,
    to_c_str, ProjectionError,
};

fn alice() -> RTCIceServer {
    RTCIceServer {
        credential: Some(String::from("secret")),
        username: Some(String::from("alice")),
        urls: Some(vec![
            String::from("stun:a.example:3478"),
            String::from("turn:b.example:3478"),
        ]),
    }
}

#[test]
fn policy_codes_start_at_one() {
    assert_eq!(BundelPolicy::Balanced.code(), 1);
    assert_eq!(BundelPolicy::MaxCompat.code(), 2);
    assert_eq!(BundelPolicy::MaxBundle.code(), 3);
    assert_eq!(IceTransportPolicy::NoCandidates.code(), 1);
    assert_eq!(IceTransportPolicy::Relay.code(), 2);
    assert_eq!(IceTransportPolicy::Public.code(), 3);
    assert_eq!(IceTransportPolicy::All.code(), 4);
    assert_eq!(RtcpMuxPolicy::Negotiate.code(), 1);
    assert_eq!(RtcpMuxPolicy::Require.code(), 2);
}

#[test]
fn absent_policy_is_zero() {
    assert_eq!(UNSPECIFIED, 0);
    assert_eq!(BundelPolicy::encode(None), 0);
    assert_eq!(IceTransportPolicy::encode(None), 0);
    assert_eq!(RtcpMuxPolicy::encode(None), 0);
    assert_eq!(BundelPolicy::encode(Some(BundelPolicy::MaxBundle)), 3);
    assert_eq!(IceTransportPolicy::encode(Some(IceTransportPolicy::All)), 4);
    assert_eq!(RtcpMuxPolicy::encode(Some(RtcpMuxPolicy::Require)), 2);
}

#[test]
fn policy_codes_decode_back() {
    assert_eq!(BundelPolicy::from_code(2), Some(BundelPolicy::MaxCompat));
    assert_eq!(BundelPolicy::from_code(0), None);
    assert_eq!(BundelPolicy::from_code(4), None);
    assert_eq!(IceTransportPolicy::from_code(4), Some(IceTransportPolicy::All));
    assert_eq!(IceTransportPolicy::from_code(5), None);
    assert_eq!(RtcpMuxPolicy::from_code(1), Some(RtcpMuxPolicy::Negotiate));
    assert_eq!(RtcpMuxPolicy::from_code(3), None);
    assert_eq!(BundelPolicy::decode(0), Some(None));
    assert_eq!(BundelPolicy::decode(3), Some(Some(BundelPolicy::MaxBundle)));
    assert_eq!(BundelPolicy::decode(-1), None);
    assert_eq!(IceTransportPolicy::decode(0), Some(None));
    assert_eq!(IceTransportPolicy::decode(7), None);
    assert_eq!(RtcpMuxPolicy::decode(2), Some(Some(RtcpMuxPolicy::Require)));
    assert_eq!(RtcpMuxPolicy::decode(3), None);
}

#[test]
fn text_is_zero_terminated() {
    assert_eq!(encode_text("hi"), Some(vec![104u8, 105, 0]));
    assert_eq!(encode_text(""), Some(vec![0u8]));
    assert_eq!(encode_text("é"), Some(vec![0xc3u8, 0xa9, 0]));
}

#[test]
fn interior_nul_is_refused() {
    assert!(has_interior_nul("a\0b"));
    assert!(!has_interior_nul("ab"));
    assert_eq!(encode_text("a\0b"), None);
    let mut heap = NativeHeap::new();
    assert_eq!(to_c_str(&mut heap, "a\0b"), Err(ProjectionError::InvalidText));
    assert_eq!(heap.live_blocks(), 0);
    assert_eq!(heap.allocated(), 0);
}

#[test]
fn to_c_str_allocates_one_block() {
    let mut heap = NativeHeap::new();
    let a = to_c_str(&mut heap, "alice").unwrap();
    assert_eq!(a, 1);
    assert_ne!(a, NULL);
    assert_eq!(heap.live_blocks(), 1);
    assert_eq!(heap.text(a), Some(&vec![b'a', b'l', b'i', b'c', b'e', 0]));
    assert_eq!(read_text(&heap, a), Some(vec![b'a', b'l', b'i', b'c', b'e']));
    assert_eq!(read_string(&heap, a), Some(String::from("alice")));
    let b = to_c_str(&mut heap, "bob").unwrap();
    assert_eq!(b, 2);
    assert_eq!(heap.live_blocks(), 2);
}

#[test]
fn to_c_str_fails_on_a_full_heap() {
    let mut heap = NativeHeap::with_limit(1);
    assert_eq!(heap.remaining(), 1);
    assert_eq!(to_c_str(&mut heap, "a"), Ok(1));
    assert_eq!(heap.remaining(), 0);
    assert_eq!(to_c_str(&mut heap, "b"), Err(ProjectionError::AllocationFailure));
    assert_eq!(to_c_str(&mut heap, "b\0"), Err(ProjectionError::InvalidText));
    assert_eq!(heap.live_blocks(), 1);
    assert_eq!(heap.allocated(), 1);
}

#[test]
fn free_is_safe_on_null_and_on_a_second_call() {
    let mut heap = NativeHeap::new();
    assert!(!free_cstring(&mut heap, NULL));
    let a = to_c_str(&mut heap, "x").unwrap();
    assert!(heap.is_live(a));
    assert!(free_cstring(&mut heap, a));
    assert!(!heap.is_live(a));
    assert!(!free_cstring(&mut heap, a));
    assert!(!free_cstring(&mut heap, 99));
    assert_eq!(heap.live_blocks(), 0);
    assert_eq!(read_string(&heap, a), None);
}

#[test]
fn addresses_are_not_handed_out_twice() {
    let mut heap = NativeHeap::new();
    let a = heap.allocate(Block::Text(vec![0])).unwrap();
    assert!(heap.free(a));
    let b = heap.allocate(Block::Text(vec![0])).unwrap();
    assert_ne!(a, b);
    assert_eq!(b, 2);
    assert_eq!(heap.live_blocks(), 1);
}

#[test]
fn read_string_wants_terminated_utf8() {
    let mut heap = NativeHeap::new();
    let open = heap.allocate(Block::Text(vec![b'a'])).unwrap();
    let bad = heap.allocate(Block::Text(vec![0xff, 0])).unwrap();
    let empty = heap.allocate(Block::Text(vec![])).unwrap();
    let array = heap.allocate(Block::Pointers(vec![open])).unwrap();
    assert_eq!(read_text(&heap, open), None);
    assert_eq!(read_text(&heap, bad), Some(vec![0xff]));
    assert_eq!(read_string(&heap, bad), None);
    assert_eq!(read_text(&heap, empty), None);
    assert_eq!(read_text(&heap, array), None);
    assert_eq!(read_opt_string(&heap, NULL), Some(None));
    assert_eq!(read_opt_string(&heap, open), None);
    assert_eq!(heap.pointers(array), Some(&vec![open]));
    assert_eq!(heap.pointers(open), None);
    assert!(heap.servers(array).is_none());
    assert!(heap.configuration(array).is_none());
}

#[test]
fn empty_string_array_is_null() {
    let mut heap = NativeHeap::new();
    let array = place_strings(&mut heap, &Vec::new());
    assert_eq!(array, NULL);
    assert_eq!(heap.allocated(), 0);
}

#[test]
fn string_array_keeps_order() {
    let mut heap = NativeHeap::new();
    let list = vec![String::from("b"), String::from("a"), String::from("c")];
    let array = place_strings(&mut heap, &list);
    assert_eq!(array, 4);
    let items = heap.pointers(array).unwrap().clone();
    assert_eq!(items, vec![1, 2, 3]);
    assert_eq!(read_string(&heap, items[0]), Some(String::from("b")));
    assert_eq!(read_string(&heap, items[1]), Some(String::from("a")));
    assert_eq!(read_string(&heap, items[2]), Some(String::from("c")));
}

#[test]
fn ice_server_scenario() {
    let mut heap = NativeHeap::new();
    let server = alice();
    let mut raw = server.project(&mut heap).unwrap();
    let projected = raw;
    assert_eq!(raw.urls_size, 2);
    assert_eq!(raw.urls_capacity, 2);
    assert_eq!(
        raw,
        RawRTCIceServer { credential: 4, urls: 3, urls_size: 2, urls_capacity: 2, username: 5 }
    );
    let items = heap.pointers(raw.urls).unwrap().clone();
    assert_eq!(items.len(), 2);
    assert_eq!(read_string(&heap, items[0]), Some(String::from("stun:a.example:3478")));
    assert_eq!(read_string(&heap, items[1]), Some(String::from("turn:b.example:3478")));
    assert_eq!(read_string(&heap, raw.username), Some(String::from("alice")));
    assert_eq!(read_string(&heap, raw.credential), Some(String::from("secret")));
    assert_eq!(heap.live_blocks(), 5);
    assert_eq!(raw.release(&mut heap), 5);
    assert_eq!(heap.live_blocks(), 0);
    assert!(!heap.is_live(items[0]));
    assert!(!heap.is_live(items[1]));
    assert!(!heap.is_live(projected.urls));
    assert!(!heap.is_live(projected.username));
    assert!(!heap.is_live(projected.credential));
    assert_eq!(
        raw,
        RawRTCIceServer {
            credential: NULL,
            urls: NULL,
            urls_size: 0,
            urls_capacity: 0,
            username: NULL
        }
    );
    assert_eq!(raw.release(&mut heap), 0);
    let mut stale = projected;
    assert_eq!(stale.release(&mut heap), 0);
    assert_eq!(heap.live_blocks(), 0);
    assert_eq!(heap.allocated(), 5);
}

#[test]
fn ice_server_reads_back() {
    let mut heap = NativeHeap::new();
    let server = alice();
    let mut raw = server.project(&mut heap).unwrap();
    let projected = raw;
    let back = raw.read(&heap).unwrap();
    assert_eq!(back.credential, server.credential);
    assert_eq!(back.username, server.username);
    assert_eq!(back.urls, server.urls);
    assert_eq!(raw.release(&mut heap), 5);
    assert!(projected.read(&heap).is_none());
    let cleared = raw.read(&heap).unwrap();
    assert_eq!(cleared.credential, None);
    assert_eq!(cleared.username, None);
    assert_eq!(cleared.urls, None);
}

#[test]
fn ice_server_with_nothing_set_is_all_null() {
    let mut heap = NativeHeap::new();
    let server = RTCIceServer::new();
    assert!(server.is_valid());
    assert!(server.fits());
    assert_eq!(server.count_blocks(), 0);
    let raw = server.project(&mut heap).unwrap();
    assert_eq!(
        raw,
        RawRTCIceServer {
            credential: NULL,
            urls: NULL,
            urls_size: 0,
            urls_capacity: 0,
            username: NULL
        }
    );
    assert_eq!(heap.allocated(), 0);
    let back = raw.read(&heap).unwrap();
    assert_eq!(back.credential, None);
    assert_eq!(back.username, None);
    assert_eq!(back.urls, None);
}

#[test]
fn ice_server_with_empty_urls_projects_null_array() {
    let mut heap = NativeHeap::new();
    let server = RTCIceServer { credential: None, username: None, urls: Some(Vec::new()) };
    let raw = server.project(&mut heap).unwrap();
    assert_eq!(raw.urls, NULL);
    assert_eq!(raw.urls_size, 0);
    assert_eq!(raw.urls_capacity, 0);
    assert_eq!(heap.live_blocks(), 0);
}

#[test]
fn ice_server_with_bad_text_leaves_no_block() {
    let mut heap = NativeHeap::new();
    let mut server = alice();
    server.username = Some(String::from("al\0ice"));
    assert!(!server.is_valid());
    assert_eq!(server.project(&mut heap), Err(ProjectionError::InvalidText));
    assert_eq!(heap.live_blocks(), 0);
    assert_eq!(heap.allocated(), 0);
    let mut other = alice();
    other.urls = Some(vec![String::from("ok"), String::from("\0")]);
    assert_eq!(other.project(&mut heap), Err(ProjectionError::InvalidText));
    assert_eq!(heap.allocated(), 0);
}

#[test]
fn ice_server_needs_room_for_every_block() {
    let server = alice();
    assert_eq!(server.count_blocks(), 5);
    let mut small = NativeHeap::with_limit(4);
    assert_eq!(server.project(&mut small), Err(ProjectionError::AllocationFailure));
    assert_eq!(small.live_blocks(), 0);
    assert_eq!(small.allocated(), 0);
    let mut exact = NativeHeap::with_limit(5);
    assert!(server.project(&mut exact).is_ok());
    assert_eq!(exact.remaining(), 0);
}

#[test]
fn release_all_passes_over_dead_addresses() {
    let mut heap = NativeHeap::new();
    let a = to_c_str(&mut heap, "a").unwrap();
    let b = to_c_str(&mut heap, "b").unwrap();
    assert_eq!(release_all(&mut heap, &vec![a, a, NULL, 77]), 1);
    assert!(!heap.is_live(a));
    assert!(heap.is_live(b));
    assert_eq!(heap.live_blocks(), 1);
}

#[test]
fn configuration_scenario() {
    let mut heap = NativeHeap::new();
    let mut config = RTCConfiguration::new();
    config.bundle_policy = None;
    config.ice_servers = Some(Vec::new());
    let raw = config.project(&mut heap).unwrap();
    assert_eq!(raw.bundle_policy, 0);
    assert_eq!(raw.ice_servers, NULL);
    assert_eq!(raw.ice_servers_size, 0);
    assert_eq!(raw.ice_servers_capacity, 0);
    assert_eq!(heap.allocated(), 0);
}

#[test]
fn configuration_with_nothing_set_is_all_sentinels() {
    let mut heap = NativeHeap::new();
    let config = RTCConfiguration::new();
    let raw = config.project(&mut heap).unwrap();
    assert_eq!(raw.bundle_policy, 0);
    assert_eq!(raw.ice_transport_policy, 0);
    assert_eq!(raw.rtcp_mux_policy, 0);
    assert_eq!(raw.peer_identity, NULL);
    assert_eq!(raw.ice_servers, NULL);
    assert_eq!(raw.ice_servers_size, 0);
    assert_eq!(raw.ice_servers_capacity, 0);
    assert_eq!(raw.ice_candidate_pool_size, 0);
    assert_eq!(heap.live_blocks(), 0);
}

fn full_configuration() -> RTCConfiguration {
    let mut config = RTCConfiguration::new();
    config.bundle_policy = Some(BundelPolicy::MaxBundle);
    config.ice_transport_policy = Some(IceTransportPolicy::Relay);
    config.rtcp_mux_policy = Some(RtcpMuxPolicy::Require);
    config.peer_identity = Some(String::from("peer"));
    config.ice_candidate_pool_size = Some(7);
    config.ice_servers = Some(vec![
        alice(),
        RTCIceServer { credential: None, username: None, urls: Some(vec![String::from("stun:c")]) },
    ]);
    config
}

#[test]
fn configuration_projects_servers_in_order() {
    let mut heap = NativeHeap::new();
    let config = full_configuration();
    assert_eq!(config.count_blocks(100), Some(9));
    assert_eq!(config.count_blocks(8), None);
    let mut raw = config.project(&mut heap).unwrap();
    assert_eq!(raw.bundle_policy, 3);
    assert_eq!(raw.ice_transport_policy, 2);
    assert_eq!(raw.rtcp_mux_policy, 2);
    assert_eq!(raw.ice_candidate_pool_size, 7);
    assert_eq!(raw.ice_servers_size, 2);
    assert_eq!(raw.ice_servers_capacity, 2);
    assert_eq!(raw.ice_servers, 8);
    assert_eq!(raw.peer_identity, 9);
    assert_eq!(read_string(&heap, raw.peer_identity), Some(String::from("peer")));
    let mirrors = heap.servers(raw.ice_servers).unwrap().clone();
    assert_eq!(mirrors.len(), 2);
    assert_eq!(
        mirrors[0],
        RawRTCIceServer { credential: 4, urls: 3, urls_size: 2, urls_capacity: 2, username: 5 }
    );
    assert_eq!(
        mirrors[1],
        RawRTCIceServer { credential: 0, urls: 7, urls_size: 1, urls_capacity: 1, username: 0 }
    );
    assert_eq!(heap.live_blocks(), 9);
    assert_eq!(raw.release(&mut heap), 9);
    assert_eq!(heap.live_blocks(), 0);
    assert_eq!(raw.peer_identity, NULL);
    assert_eq!(raw.ice_servers, NULL);
    assert_eq!(raw.ice_servers_size, 0);
    assert_eq!(raw.ice_servers_capacity, 0);
    assert_eq!(raw.bundle_policy, 3);
    assert_eq!(raw.ice_transport_policy, 2);
    assert_eq!(raw.rtcp_mux_policy, 2);
    assert_eq!(raw.ice_candidate_pool_size, 7);
    assert_eq!(raw.release(&mut heap), 0);
}

#[test]
fn configuration_reads_back() {
    let mut heap = NativeHeap::new();
    let config = full_configuration();
    let raw = config.project(&mut heap).unwrap();
    let back = raw.read(&heap).unwrap();
    assert!(back.cached_address().is_none());
    assert_eq!(back.bundle_policy, config.bundle_policy);
    assert_eq!(back.ice_transport_policy, config.ice_transport_policy);
    assert_eq!(back.rtcp_mux_policy, config.rtcp_mux_policy);
    assert_eq!(back.peer_identity, config.peer_identity);
    assert_eq!(back.ice_candidate_pool_size, config.ice_candidate_pool_size);
    let servers = back.ice_servers.unwrap();
    let sources = config.ice_servers.unwrap();
    assert_eq!(servers.len(), 2);
    assert_eq!(servers[0].username, sources[0].username);
    assert_eq!(servers[0].credential, sources[0].credential);
    assert_eq!(servers[0].urls, sources[0].urls);
    assert_eq!(servers[1].username, None);
    assert_eq!(servers[1].urls, sources[1].urls);
}

#[test]
fn get_raw_is_cached() {
    let mut heap = NativeHeap::new();
    let mut config = full_configuration();
    assert_eq!(config.cached_address(), None);
    let first = config.get_raw(&mut heap).unwrap();
    assert_eq!(first, 10);
    assert_eq!(config.cached_address(), Some(first));
    assert_eq!(heap.live_blocks(), 10);
    let second = config.get_raw(&mut heap).unwrap();
    assert_eq!(second, first);
    assert_eq!(heap.live_blocks(), 10);
    assert_eq!(heap.allocated(), 10);
    let boxed = heap.configuration(first).unwrap();
    assert_eq!(boxed.ice_servers, 8);
    assert_eq!(boxed.bundle_policy, 3);
}

#[test]
fn get_raw_keeps_the_mirror_after_a_change() {
    let mut heap = NativeHeap::new();
    let mut config = RTCConfiguration::new();
    let first = config.get_raw(&mut heap).unwrap();
    config.bundle_policy = Some(BundelPolicy::Balanced);
    let second = config.get_raw(&mut heap).unwrap();
    assert_eq!(first, second);
    assert_eq!(heap.configuration(second).unwrap().bundle_policy, 0);
}

#[test]
fn destroy_releases_everything_once() {
    let mut heap = NativeHeap::new();
    let keep = to_c_str(&mut heap, "keep").unwrap();
    let mut config = full_configuration();
    let address = config.get_raw(&mut heap).unwrap();
    assert_eq!(heap.live_blocks(), 11);
    assert_eq!(config.destroy(&mut heap), 10);
    assert_eq!(heap.live_blocks(), 1);
    assert!(heap.is_live(keep));
    assert!(!heap.is_live(address));
    assert_eq!(release_box(&mut heap, address), 0);
    assert_eq!(heap.live_blocks(), 1);
}

#[test]
fn destroy_without_projection_releases_nothing() {
    let mut heap = NativeHeap::new();
    let keep = to_c_str(&mut heap, "keep").unwrap();
    let config = full_configuration();
    assert_eq!(config.destroy(&mut heap), 0);
    assert_eq!(heap.live_blocks(), 1);
    assert!(heap.is_live(keep));
}

#[test]
fn get_raw_fails_without_leaving_blocks() {
    let mut config = full_configuration();
    let mut small = NativeHeap::with_limit(9);
    assert_eq!(config.get_raw(&mut small), Err(ProjectionError::AllocationFailure));
    assert_eq!(small.allocated(), 0);
    assert_eq!(config.cached_address(), None);
    config.peer_identity = Some(String::from("\0"));
    let mut heap = NativeHeap::new();
    assert!(!config.is_valid());
    assert_eq!(config.get_raw(&mut heap), Err(ProjectionError::InvalidText));
    assert_eq!(config.project(&mut heap), Err(ProjectionError::InvalidText));
    assert_eq!(heap.allocated(), 0);
    config.peer_identity = None;
    let mut exact = NativeHeap::with_limit(9);
    assert_eq!(config.get_raw(&mut exact), Ok(9));
    assert_eq!(exact.remaining(), 0);
}

#[test]
fn mirror_with_bad_code_does_not_read_back() {
    let mut heap = NativeHeap::new();
    let config = RTCConfiguration::new();
    let mut raw = config.project(&mut heap).unwrap();
    assert!(raw.read(&heap).is_some());
    raw.bundle_policy = 4;
    assert!(raw.read(&heap).is_none());
    raw.bundle_policy = 0;
    raw.ice_candidate_pool_size = 256;
    assert!(raw.read(&heap).is_none());
    raw.ice_candidate_pool_size = 0;
    raw.ice_servers_size = 1;
    assert!(raw.read(&heap).is_none());
}

#[test]
fn free_cstring_leaves_other_blocks_alone() {
    let mut heap = NativeHeap::new();
    let array = heap.allocate(Block::Pointers(vec![])).unwrap();
    assert!(!free_cstring(&mut heap, array));
    assert!(heap.is_live(array));
    assert!(heap.free(array));
    assert!(!heap.free(array));
}

#[test]
fn projected_array_has_no_spare_slot() {
    let mut heap = NativeHeap::new();
    let list = vec![String::from("x"), String::from("y")];
    let mut array = project_strings(&mut heap, &list).unwrap();
    assert_eq!(array, ProjectedArray { pointer: 3, length: 2, capacity: 2 });
    assert_eq!(heap.pointers(array.pointer), Some(&vec![1, 2]));
    let mut owned = Vec::new();
    collect_strings(&heap, array.pointer, &mut owned);
    assert_eq!(owned, vec![1, 2, 3]);
    assert_eq!(release_strings(&mut heap, array.pointer), 3);
    assert_eq!(heap.live_blocks(), 0);
    assert_eq!(release_strings(&mut heap, array.pointer), 0);
    assert_eq!(array.release(&mut heap), 0);
    assert_eq!(array, ProjectedArray { pointer: NULL, length: 0, capacity: 0 });
    assert_eq!(heap.live_blocks(), 0);
}

#[test]
fn projected_empty_array_is_null_with_zero_counts() {
    let mut heap = NativeHeap::with_limit(0);
    let array = project_strings(&mut heap, &Vec::new()).unwrap();
    assert_eq!(array, ProjectedArray { pointer: NULL, length: 0, capacity: 0 });
    assert_eq!(heap.allocated(), 0);
}

#[test]
fn projected_array_is_all_or_nothing() {
    let mut heap = NativeHeap::with_limit(2);
    let list = vec![String::from("x"), String::from("y")];
    assert_eq!(project_strings(&mut heap, &list), Err(ProjectionError::AllocationFailure));
    assert_eq!(heap.allocated(), 0);
    let bad = vec![String::from("x"), String::from("y\0z")];
    assert_eq!(project_strings(&mut heap, &bad), Err(ProjectionError::InvalidText));
    assert_eq!(heap.allocated(), 0);
}

#[test]
fn defaults_have_nothing_set() {
    let server = RTCIceServer::default();
    assert_eq!(server.credential, None);
    assert_eq!(server.username, None);
    assert_eq!(server.urls, None);
    let config = RTCConfiguration::default();
    assert_eq!(config.bundle_policy, None);
    assert_eq!(config.ice_transport_policy, None);
    assert_eq!(config.rtcp_mux_policy, None);
    assert_eq!(config.peer_identity, None);
    assert!(config.ice_servers.is_none());
    assert_eq!(config.ice_candidate_pool_size, None);
    assert_eq!(config.cached_address(), None);
    assert!(config.fits());
}

#[test]
fn mirrors_list_what_they_own() {
    let mut heap = NativeHeap::new();
    let raw = alice().project(&mut heap).unwrap();
    let mut owned = Vec::new();
    raw.collect(&heap, &mut owned);
    owned.sort();
    assert_eq!(owned, vec![1, 2, 3, 4, 5]);
    let config = full_configuration();
    let mut other = NativeHeap::new();
    let mirror = config.project(&mut other).unwrap();
    let mut all = Vec::new();
    mirror.collect(&other, &mut all);
    all.sort();
    assert_eq!(all, vec![1, 2, 3, 4, 5, 6, 7, 8, 9]);
}

#[test]
fn projected_array_release_clears_the_triple() {
    let mut heap = NativeHeap::new();
    let list = vec![String::from("x"), String::from("y")];
    let mut array = project_strings(&mut heap, &list).unwrap();
    assert_eq!(array.release(&mut heap), 3);
    assert_eq!(array, ProjectedArray { pointer: NULL, length: 0, capacity: 0 });
    assert_eq!(array.release(&mut heap), 0);
    assert_eq!(heap.live_blocks(), 0);
}

#[test]
fn from_parts_sets_the_six_fields() {
    let config = RTCConfiguration::from_parts(
        Some(BundelPolicy::Balanced),
        Some(IceTransportPolicy::All),
        Some(String::from("peer")),
        Some(RtcpMuxPolicy::Negotiate),
        Some(vec![alice()]),
        Some(3),
    );
    assert_eq!(config.bundle_policy, Some(BundelPolicy::Balanced));
    assert_eq!(config.ice_transport_policy, Some(IceTransportPolicy::All));
    assert_eq!(config.peer_identity, Some(String::from("peer")));
    assert_eq!(config.rtcp_mux_policy, Some(RtcpMuxPolicy::Negotiate));
    assert_eq!(config.ice_servers.as_ref().unwrap().len(), 1);
    assert_eq!(config.ice_candidate_pool_size, Some(3));
    assert_eq!(config.cached_address(), None);
}

#[test]
fn get_raw_leaves_the_fields_alone() {
    let mut heap = NativeHeap::new();
    let mut config = RTCConfiguration::new();
    config.ice_servers = Some(Vec::new());
    config.get_raw(&mut heap).unwrap();
    assert_eq!(config.ice_candidate_pool_size, None);
    assert_eq!(config.ice_servers.as_ref().map(|l| l.len()), Some(0));
    assert_eq!(config.bundle_policy, None);
    assert_eq!(config.peer_identity, None);
    config.get_raw(&mut heap).unwrap();
    assert_eq!(config.ice_candidate_pool_size, None);
    assert_eq!(config.ice_servers.as_ref().map(|l| l.len()), Some(0));
}

#[test]
fn server_duplicate_is_field_for_field() {
    let server = alice();
    let copy = server.duplicate();
    assert_eq!(copy.credential, server.credential);
    assert_eq!(copy.username, server.username);
    assert_eq!(copy.urls, server.urls);
    let empty = RTCIceServer { credential: None, username: None, urls: Some(Vec::new()) };
    assert_eq!(empty.duplicate().urls, Some(Vec::new()));
    assert_eq!(RTCIceServer::new().duplicate().urls, None);
}

#[test]
fn duplicate_projects_a_mirror_of_its_own() {
    let mut heap = NativeHeap::new();
    let mut a = full_configuration();
    let p = a.get_raw(&mut heap).unwrap();
    let mut b = a.duplicate();
    assert_eq!(b.cached_address(), None);
    assert_eq!(b.bundle_policy, a.bundle_policy);
    assert_eq!(b.ice_transport_policy, a.ice_transport_policy);
    assert_eq!(b.rtcp_mux_policy, a.rtcp_mux_policy);
    assert_eq!(b.peer_identity, a.peer_identity);
    assert_eq!(b.ice_candidate_pool_size, a.ice_candidate_pool_size);
    assert_eq!(b.ice_servers.as_ref().unwrap().len(), 2);
    assert_eq!(b.ice_servers.as_ref().unwrap()[0].urls, alice().urls);
    let q = b.get_raw(&mut heap).unwrap();
    assert_ne!(q, p);
    assert_eq!(q, 20);
    assert_eq!(heap.live_blocks(), 20);
    let mut owned_a = Vec::new();
    heap.configuration(p).unwrap().collect(&heap, &mut owned_a);
    let mut owned_b = Vec::new();
    heap.configuration(q).unwrap().collect(&heap, &mut owned_b);
    assert!(owned_a.iter().all(|x| !owned_b.contains(x)));
    assert_eq!(a.destroy(&mut heap), 10);
    assert!(heap.is_live(q));
    assert_eq!(heap.live_blocks(), 10);
    assert_eq!(b.destroy(&mut heap), 10);
    assert_eq!(heap.live_blocks(), 0);
}

#[test]
fn cached_mirror_outlives_another_configuration() {
    let mut heap = NativeHeap::new();
    let mut a = full_configuration();
    let p = a.get_raw(&mut heap).unwrap();
    let mut other = RTCConfiguration::new();
    other.peer_identity = Some(String::from("other"));
    let q = other.get_raw(&mut heap).unwrap();
    assert_eq!(other.destroy(&mut heap), 2);
    assert!(!heap.is_live(q));
    assert!(heap.is_live(p));
    assert_eq!(a.get_raw(&mut heap), Ok(p));
    let back = heap.configuration(p).unwrap().read(&heap).unwrap();
    assert_eq!(back.peer_identity, Some(String::from("peer")));
    assert_eq!(a.destroy(&mut heap), 10);
    assert_eq!(heap.live_blocks(), 0);
}
