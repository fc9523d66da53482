//! The beacon-node API server's routes: which request paths it answers, and with what.

use vstd::prelude::*;
use vstd::string::*;
use crate::types::{BlockId, StateId, str_equals};
use crate::eth2::Endpoint;

verus! {

/// A request that the server answers.
#[derive(Clone, Copy, Debug, PartialEq, Eq)]
pub enum Route {
    /// `GET eth/v1/beacon/states/{state_id}/root`
    BeaconStateRoot(StateId),
    /// `GET eth/v1/beacon/states/{state_id}/fork`
    BeaconStateFork(StateId),
    /// `GET eth/v1/beacon/states/{state_id}/finality_checkpoints`
    BeaconStateFinalityCheckpoints(StateId),
    /// `GET eth/v1/beacon/blocks/{block_id}/root`
    BeaconBlockRoot(BlockId),
}

/// The segments that are matched: all of them, but for one empty segment at the end (a trailing
/// slash), which the end of a route accepts.
pub open spec fn matched_segments(segments: Seq<Seq<char>>) -> Seq<Seq<char>> {
    if segments.len() > 0 && segments.last().len() == 0 {
        segments.drop_last()
    } else {
        segments
    }
}

/// The route of a request path, given as its segments (the path without its leading `/`, split
/// at every `/`): `eth/v1/beacon/states/{state_id}/{root,fork,finality_checkpoints}` or
/// `eth/v1/beacon/blocks/{block_id}/root`, where the identifier parses.
pub open spec fn route_spec(segments: Seq<Seq<char>>) -> Option<Route> {
    let p = matched_segments(segments);
    if p.len() == 6 && p[0] == "eth"@ && p[1] == "v1"@ && p[2] == "beacon"@ {
        if p[3] == "states"@ {
            match StateId::parse_spec(p[4]) {
                Some(id) => if p[5] == "root"@ {
                    Some(Route::BeaconStateRoot(id))
                } else if p[5] == "fork"@ {
                    Some(Route::BeaconStateFork(id))
                } else if p[5] == "finality_checkpoints"@ {
                    Some(Route::BeaconStateFinalityCheckpoints(id))
                } else {
                    None
                },
                None => None,
            }
        } else if p[3] == "blocks"@ && p[5] == "root"@ {
            match BlockId::parse_spec(p[4]) {
                Some(id) => Some(Route::BeaconBlockRoot(id)),
                None => None,
            }
        } else {
            None
        }
    } else {
        None
    }
}

/// Finds the route of a request path, given as its segments.
pub fn route(segments: &Vec<String>) -> (r: Option<Route>)
    ensures
        r == route_spec(segments@.map_values(|s: String| s@)),
{
    let ghost view = segments@.map_values(|s: String| s@);
    let mut n = segments.len();
    if n > 0 && segments[n - 1].as_str().unicode_len() == 0 {
        n = n - 1;
    }
    let ghost p = matched_segments(view);
    assert(p.len() == n);
    assert(forall|i: int| 0 <= i < n ==> p[i] == #[trigger] segments@[i]@);
    if n != 6 {
        return None;
    }
    if !(str_equals(segments[0].as_str(), "eth") && str_equals(segments[1].as_str(), "v1")
        && str_equals(segments[2].as_str(), "beacon")) {
        return None;
    }
    let last = segments[5].as_str();
    if str_equals(segments[3].as_str(), "states") {
        match StateId::parse(segments[4].as_str()) {
            Some(id) => {
                if str_equals(last, "root") {
                    Some(Route::BeaconStateRoot(id))
                } else if str_equals(last, "fork") {
                    Some(Route::BeaconStateFork(id))
                } else if str_equals(last, "finality_checkpoints") {
                    Some(Route::BeaconStateFinalityCheckpoints(id))
                } else {
                    None
                }
            },
            None => None,
        }
    } else if str_equals(segments[3].as_str(), "blocks") && str_equals(last, "root") {
        match BlockId::parse(segments[4].as_str()) {
            Some(id) => Some(Route::BeaconBlockRoot(id)),
            None => None,
        }
    } else {
        None
    }
}

/// The segments of the client's request path for an endpoint: the API base `eth/v1`, then the
/// endpoint's segments.
pub open spec fn client_request_segments(endpoint: Endpoint) -> Seq<Seq<char>> {
    seq!["eth"@, "v1"@] + endpoint.segments_spec()
}

// ---------------------------------------------------------------------------------------------
// Laws

/// The server routes the client's request for a state root, a fork, finality checkpoints or a
/// block root to the handler of that request, with the same identifier.
pub proof fn lemma_client_requests_are_routed(endpoint: Endpoint)
    ensures
        match endpoint {
            Endpoint::BeaconStatesRoot(id) =>
                route_spec(client_request_segments(endpoint)) == Some(Route::BeaconStateRoot(id)),
            Endpoint::BeaconStatesFork(id) =>
                route_spec(client_request_segments(endpoint)) == Some(Route::BeaconStateFork(id)),
            Endpoint::BeaconStatesFinalityCheckpoints(id) =>
                route_spec(client_request_segments(endpoint)) == Some(Route::BeaconStateFinalityCheckpoints(id)),
            Endpoint::BeaconBlocksRoot(id) =>
                route_spec(client_request_segments(endpoint)) == Some(Route::BeaconBlockRoot(id)),
            _ => true,
        },
{
    reveal_strlit("root");
    reveal_strlit("fork");
    reveal_strlit("finality_checkpoints");
    reveal_strlit("states");
    reveal_strlit("blocks");
    let s = client_request_segments(endpoint);
    match endpoint {
        Endpoint::BeaconStatesRoot(id) => {
            crate::types::lemma_state_id_round_trip(id);
            assert(s.last() == "root"@);
            assert(matched_segments(s) == s);
            assert(s[4] == id.text());
        },
        Endpoint::BeaconStatesFork(id) => {
            crate::types::lemma_state_id_round_trip(id);
            assert(s.last() == "fork"@);
            assert(matched_segments(s) == s);
            assert(s[4] == id.text());
            assert("fork"@ != "root"@) by { assert("fork"@[0] != "root"@[0]); }
        },
        Endpoint::BeaconStatesFinalityCheckpoints(id) => {
            crate::types::lemma_state_id_round_trip(id);
            assert(s.last() == "finality_checkpoints"@);
            assert(matched_segments(s) == s);
            assert(s[4] == id.text());
            assert("finality_checkpoints"@ != "root"@) by { assert("finality_checkpoints"@.len() != "root"@.len()); }
            assert("finality_checkpoints"@ != "fork"@) by { assert("finality_checkpoints"@.len() != "fork"@.len()); }
        },
        Endpoint::BeaconBlocksRoot(id) => {
            crate::types::lemma_block_id_round_trip(id);
            assert(s.last() == "root"@);
            assert(matched_segments(s) == s);
            assert(s[4] == id.text());
            assert("blocks"@ != "states"@) by { assert("blocks"@[0] != "states"@[0]); }
        },
        _ => {},
    }
}

} // verus!
