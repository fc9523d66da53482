use lighthouse_api::eth2::Endpoint;
use lighthouse_api::http_api::{route, Route};
use lighthouse_api::types::{BlockId, Hash256, Slot, StateId};

fn segs(path: &str) -> Vec<String> {
    path.split('/').map(|s| s.to_string()).collect()
}

#[test]
fn routes_state_endpoints() {
    assert_eq!(route(&segs("eth/v1/beacon/states/head/root")), Some(Route::BeaconStateRoot(StateId::Head)));
    assert_eq!(route(&segs("eth/v1/beacon/states/12/fork")), Some(Route::BeaconStateFork(StateId::Slot(Slot(12)))));
    assert_eq!(
        route(&segs("eth/v1/beacon/states/finalized/finality_checkpoints")),
        Some(Route::BeaconStateFinalityCheckpoints(StateId::Finalized))
    );
}

#[test]
fn routes_block_root() {
    let root = format!("0x{}", "aa".repeat(32));
    assert_eq!(
        route(&segs(&format!("eth/v1/beacon/blocks/{}/root", root))),
        Some(Route::BeaconBlockRoot(BlockId::Root(Hash256([0xaa; 32]))))
    );
}

#[test]
fn trailing_slash_is_accepted_once() {
    assert_eq!(route(&segs("eth/v1/beacon/states/head/root/")), Some(Route::BeaconStateRoot(StateId::Head)));
    assert_eq!(route(&segs("eth/v1/beacon/states/head/root//")), None);
}

#[test]
fn refuses_other_paths() {
    for p in [
        "",
        "eth/v1/beacon/states/head",
        "eth/v2/beacon/states/head/root",
        "eth/v1/beacon/states/nope/root",
        "eth/v1/beacon/states/head/validators",
        "eth/v1/beacon/blocks/head/fork",
        "eth/v1/beacon/states/head/root/extra",
        "eth//v1/beacon/states/head/root",
        "eth/v1/beacon/states//root",
    ] {
        assert_eq!(route(&segs(p)), None, "{}", p);
    }
}

#[test]
fn client_requests_reach_their_routes() {
    let ids = [StateId::Head, StateId::Slot(Slot(99)), StateId::Root(Hash256([3; 32]))];
    for id in ids {
        let cases = [
            (Endpoint::BeaconStatesRoot(id), Route::BeaconStateRoot(id)),
            (Endpoint::BeaconStatesFork(id), Route::BeaconStateFork(id)),
            (Endpoint::BeaconStatesFinalityCheckpoints(id), Route::BeaconStateFinalityCheckpoints(id)),
        ];
        for (endpoint, expected) in cases {
            let mut segments = vec!["eth".to_string(), "v1".to_string()];
            segments.extend(endpoint.path().segments);
            assert_eq!(route(&segments), Some(expected));
        }
    }
    let mut segments = vec!["eth".to_string(), "v1".to_string()];
    segments.extend(Endpoint::BeaconBlocksRoot(BlockId::Genesis).path().segments);
    assert_eq!(route(&segments), Some(Route::BeaconBlockRoot(BlockId::Genesis)));
}
